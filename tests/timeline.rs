use icut_timeline::models::{
    check_clip_start, check_found, check_same_project, next_order_index, resolve_settings,
    seed_clip, settings_are_valid, should_retry, trim_is_valid, Asset, StoreError,
};
use icut_timeline::references::{add_reference, contains_path, keep_existing};
use icut_timeline::store::{
    add_asset, create_project, create_project_command, create_track_with_clip, get_all_projects,
    get_assets_by_project, get_clips_by_track, get_project_by_id, get_tracks_by_project, Store,
    add_clip, move_clip, set_track_locked, update_clip_trim,
};

const NOW: &str = "2024-01-01 00:00:00";

fn store_with_project() -> (Store, i32) {
    let mut store = Store::new();
    let p = create_project(&mut store, "Demo".to_string(), 30, 1920, 1080, NOW.to_string()).unwrap();
    (store, p.id)
}

fn video_asset(store: &mut Store, project_id: i32, duration_ms: Option<i32>) -> i32 {
    add_asset(
        store,
        project_id,
        "/media/a.mp4".to_string(),
        "video".to_string(),
        duration_ms,
        Some(1920),
        Some(1080),
        1024,
        NOW.to_string(),
    )
    .unwrap()
    .id
}

#[test]
fn list_projects_on_empty_store_is_empty() {
    let store = Store::new();
    let projects = get_all_projects(&store).unwrap();
    assert!(projects.is_empty());
}

#[test]
fn create_project_stores_fields() {
    let (store, id) = store_with_project();
    let p = get_project_by_id(&store, id).unwrap();
    assert_eq!(p.id, 1);
    assert_eq!(p.name, "Demo");
    assert_eq!(p.duration_ms, 0);
    assert_eq!(p.frame_rate, 30);
    assert_eq!(p.created_at, NOW);
    assert_eq!(get_all_projects(&store).unwrap().len(), 1);
}

#[test]
fn create_project_command_applies_defaults() {
    let mut store = Store::new();
    let p = create_project_command(&mut store, "X".to_string(), None, None, Some(720), NOW.to_string()).unwrap();
    assert_eq!(p.frame_rate, 30);
    assert_eq!(p.resolution_width, 1920);
    assert_eq!(p.resolution_height, 720);
    let q = create_project_command(&mut store, "Y".to_string(), Some(24), Some(3840), None, NOW.to_string()).unwrap();
    assert_eq!(q.id, 2);
    assert_eq!(q.frame_rate, 24);
    assert_eq!(q.resolution_width, 3840);
    assert_eq!(q.resolution_height, 1080);
}

#[test]
fn get_missing_project_is_not_found() {
    let (store, _) = store_with_project();
    assert_eq!(get_project_by_id(&store, 2).unwrap_err(), StoreError::NotFound);
    assert_eq!(get_project_by_id(&store, 0).unwrap_err(), StoreError::NotFound);
    assert_eq!(get_project_by_id(&store, -5).unwrap_err(), StoreError::NotFound);
}

#[test]
fn add_asset_to_missing_project_fails_and_changes_nothing() {
    let (mut store, pid) = store_with_project();
    video_asset(&mut store, pid, Some(1000));
    let before = store.asset_count();
    let r = add_asset(&mut store, 99, "/x.wav".to_string(), "audio".to_string(), Some(5), None, None, 10, NOW.to_string());
    assert_eq!(r.unwrap_err(), StoreError::NotFound);
    assert_eq!(store.asset_count(), before);
}

#[test]
fn assets_are_listed_per_project() {
    let (mut store, p1) = store_with_project();
    let p2 = create_project(&mut store, "Other".to_string(), 25, 1280, 720, NOW.to_string()).unwrap().id;
    let a1 = video_asset(&mut store, p1, Some(1000));
    let a2 = video_asset(&mut store, p2, None);
    let a3 = video_asset(&mut store, p1, Some(2000));
    let l1: Vec<i32> = get_assets_by_project(&store, p1).unwrap().iter().map(|a| a.id).collect();
    let l2: Vec<i32> = get_assets_by_project(&store, p2).unwrap().iter().map(|a| a.id).collect();
    assert_eq!(l1, vec![a1, a3]);
    assert_eq!(l2, vec![a2]);
    assert!(get_assets_by_project(&store, 42).unwrap().is_empty());
}

#[test]
fn track_with_clip_copies_asset_duration() {
    let (mut store, pid) = store_with_project();
    let aid = video_asset(&mut store, pid, Some(12000));
    let tc = create_track_with_clip(&mut store, pid, aid, "video".to_string(), 5000).unwrap();
    assert_eq!(tc.clip.duration_ms, 12000);
    assert_eq!(tc.clip.start_time_ms, 5000);
    assert_eq!(tc.clip.asset_id, Some(aid));
    assert_eq!(tc.clip.asset_start_offset_ms, 0);
    assert_eq!(tc.clip.asset_end_offset_ms, 0);
    assert_eq!(tc.clip.track_id, tc.track.id);
    assert_eq!(tc.clip.volume_percent, 100);
    assert!(!tc.clip.is_muted);
    assert_eq!(tc.track.order_index, 0);
    assert_eq!(tc.track.track_type, "video");
    assert!(!tc.track.is_locked);
}

#[test]
fn track_with_clip_on_still_asset_has_zero_duration() {
    let (mut store, pid) = store_with_project();
    let aid = video_asset(&mut store, pid, None);
    let tc = create_track_with_clip(&mut store, pid, aid, "video".to_string(), 0).unwrap();
    assert_eq!(tc.clip.duration_ms, 0);
}

#[test]
fn track_with_missing_asset_writes_nothing() {
    let (mut store, pid) = store_with_project();
    let r = create_track_with_clip(&mut store, pid, 7, "video".to_string(), 0);
    assert_eq!(r.unwrap_err(), StoreError::NotFound);
    assert_eq!(store.track_count(), 0);
    assert_eq!(store.clip_count(), 0);
}

#[test]
fn track_with_missing_project_is_not_found() {
    let (mut store, pid) = store_with_project();
    let aid = video_asset(&mut store, pid, Some(10));
    let r = create_track_with_clip(&mut store, 5, aid, "audio".to_string(), 0);
    assert_eq!(r.unwrap_err(), StoreError::NotFound);
    assert_eq!(store.track_count(), 0);
}

#[test]
fn track_with_asset_of_other_project_is_refused() {
    let (mut store, p1) = store_with_project();
    let p2 = create_project(&mut store, "Other".to_string(), 30, 1920, 1080, NOW.to_string()).unwrap().id;
    let aid = video_asset(&mut store, p1, Some(10));
    let r = create_track_with_clip(&mut store, p2, aid, "video".to_string(), 0);
    assert_eq!(r.unwrap_err(), StoreError::ConstraintViolation);
    assert_eq!(store.track_count(), 0);
    assert_eq!(store.clip_count(), 0);
}

#[test]
fn tracks_are_listed_in_creation_order() {
    let (mut store, pid) = store_with_project();
    let aid = video_asset(&mut store, pid, Some(100));
    let a = create_track_with_clip(&mut store, pid, aid, "video".to_string(), 0).unwrap().track.id;
    let b = create_track_with_clip(&mut store, pid, aid, "audio".to_string(), 0).unwrap().track.id;
    let c = create_track_with_clip(&mut store, pid, aid, "video".to_string(), 0).unwrap().track.id;
    let ids: Vec<i32> = get_tracks_by_project(&store, pid).unwrap().iter().map(|t| t.id).collect();
    assert_eq!(ids, vec![a, b, c]);
}

#[test]
fn order_indices_are_dense_across_interleaved_projects() {
    let (mut store, p1) = store_with_project();
    let p2 = create_project(&mut store, "Other".to_string(), 30, 1920, 1080, NOW.to_string()).unwrap().id;
    let a1 = video_asset(&mut store, p1, Some(100));
    let a2 = video_asset(&mut store, p2, Some(100));
    for k in 0..4 {
        create_track_with_clip(&mut store, p1, a1, "video".to_string(), k * 10).unwrap();
        create_track_with_clip(&mut store, p2, a2, "audio".to_string(), 0).unwrap();
        video_asset(&mut store, p2, None);
    }
    create_track_with_clip(&mut store, p2, a2, "audio".to_string(), 0).unwrap();
    let o1: Vec<i32> = get_tracks_by_project(&store, p1).unwrap().iter().map(|t| t.order_index).collect();
    let o2: Vec<i32> = get_tracks_by_project(&store, p2).unwrap().iter().map(|t| t.order_index).collect();
    assert_eq!(o1, vec![0, 1, 2, 3]);
    assert_eq!(o2, vec![0, 1, 2, 3, 4]);
}

#[test]
fn clips_are_listed_by_start_time() {
    let (mut store, pid) = store_with_project();
    let aid = video_asset(&mut store, pid, Some(100));
    let t1 = create_track_with_clip(&mut store, pid, aid, "video".to_string(), 700).unwrap().track.id;
    let t2 = create_track_with_clip(&mut store, pid, aid, "video".to_string(), 50).unwrap().track.id;
    let clips = get_clips_by_track(&store, t1).unwrap();
    assert_eq!(clips.len(), 1);
    assert_eq!(clips[0].start_time_ms, 700);
    let clips2 = get_clips_by_track(&store, t2).unwrap();
    assert_eq!(clips2.len(), 1);
    assert_eq!(clips2[0].start_time_ms, 50);
    assert!(get_clips_by_track(&store, 99).unwrap().is_empty());
}

#[test]
fn seed_clip_takes_whole_asset() {
    let asset = Asset {
        id: 3,
        project_id: 1,
        file_path: "/m.mov".to_string(),
        asset_type: "video".to_string(),
        duration_ms: Some(4500),
        width: None,
        height: None,
        file_size_bytes: 0,
        imported_at: NOW.to_string(),
    };
    let c = seed_clip(9, &asset, 250);
    assert_eq!(c.track_id, 9);
    assert_eq!(c.asset_id, Some(3));
    assert_eq!(c.start_time_ms, 250);
    assert_eq!(c.duration_ms, 4500);
    assert_eq!(c.asset_start_offset_ms, 0);
    assert_eq!(c.asset_end_offset_ms, 0);
}

#[test]
fn next_order_index_follows_max() {
    assert_eq!(next_order_index(None), Some(0));
    assert_eq!(next_order_index(Some(0)), Some(1));
    assert_eq!(next_order_index(Some(41)), Some(42));
    assert_eq!(next_order_index(Some(i32::MAX)), None);
}

#[test]
fn trim_window_must_fit_asset() {
    assert!(trim_is_valid(0, 1000, Some(1000)));
    assert!(!trim_is_valid(0, 1001, Some(1000)));
    assert!(!trim_is_valid(500, 500, Some(1000)));
    assert!(!trim_is_valid(-1, 10, Some(1000)));
    assert!(trim_is_valid(10, 20000, None));
}

#[test]
fn error_messages() {
    assert_eq!(StoreError::NotFound.message(), "Record not found");
    assert_eq!(StoreError::LockedTrack.message(), "Track is locked");
    assert_eq!(StoreError::ConstraintViolation.message(), "Constraint violation");
    assert_eq!(StoreError::TransactionFailure.message(), "Transaction failed");
}

#[test]
fn references_are_deduplicated_by_path() {
    let mut refs: Vec<String> = Vec::new();
    assert!(add_reference(&mut refs, "/a.mp4".to_string()));
    assert!(add_reference(&mut refs, "/b.mp4".to_string()));
    assert!(!add_reference(&mut refs, "/a.mp4".to_string()));
    assert_eq!(refs, vec!["/a.mp4".to_string(), "/b.mp4".to_string()]);
    assert!(contains_path(&refs, &"/b.mp4".to_string()));
    assert!(!contains_path(&refs, &"/c.mp4".to_string()));
}

#[test]
fn only_existing_references_are_kept() {
    let refs = vec!["/a".to_string(), "/b".to_string(), "/c".to_string()];
    let kept = keep_existing(&refs, &vec![true, false, true]);
    assert_eq!(kept, vec!["/a".to_string(), "/c".to_string()]);
    assert!(keep_existing(&refs, &vec![false, false, false]).is_empty());
}

#[test]
fn clips_are_sorted_regardless_of_insertion_order() {
    let (mut store, pid) = store_with_project();
    let aid = video_asset(&mut store, pid, Some(10000));
    let tc = create_track_with_clip(&mut store, pid, aid, "video".to_string(), 3000).unwrap();
    let t = tc.track.id;
    let c1 = add_clip(&mut store, t, None, 9000, 500).unwrap().id;
    let c2 = add_clip(&mut store, t, Some(aid), 0, 1000).unwrap().id;
    let c3 = add_clip(&mut store, t, None, 3000, 200).unwrap().id;
    let c4 = add_clip(&mut store, t, Some(aid), 1500, 100).unwrap().id;
    let clips = get_clips_by_track(&store, t).unwrap();
    let starts: Vec<i32> = clips.iter().map(|c| c.start_time_ms).collect();
    let ids: Vec<i32> = clips.iter().map(|c| c.id).collect();
    assert_eq!(starts, vec![0, 1500, 3000, 3000, 9000]);
    assert_eq!(ids, vec![c2, c4, tc.clip.id, c3, c1]);
}

#[test]
fn add_clip_checks_references() {
    let (mut store, p1) = store_with_project();
    let p2 = create_project(&mut store, "Other".to_string(), 30, 1920, 1080, NOW.to_string()).unwrap().id;
    let a1 = video_asset(&mut store, p1, Some(100));
    let a2 = video_asset(&mut store, p2, Some(100));
    let t = create_track_with_clip(&mut store, p1, a1, "video".to_string(), 0).unwrap().track.id;
    let before = store.clip_count();
    assert_eq!(add_clip(&mut store, 77, None, 0, 10).unwrap_err(), StoreError::NotFound);
    assert_eq!(add_clip(&mut store, t, Some(55), 0, 10).unwrap_err(), StoreError::NotFound);
    assert_eq!(add_clip(&mut store, t, Some(a2), 0, 10).unwrap_err(), StoreError::ConstraintViolation);
    assert_eq!(add_clip(&mut store, t, None, -1, 10).unwrap_err(), StoreError::ConstraintViolation);
    assert_eq!(add_clip(&mut store, t, None, 0, 0).unwrap_err(), StoreError::ConstraintViolation);
    assert_eq!(store.clip_count(), before);
    let gap = add_clip(&mut store, t, None, 40, 10).unwrap();
    assert_eq!(gap.asset_id, None);
    assert_eq!(gap.duration_ms, 10);
}

#[test]
fn locked_track_refuses_clip_changes() {
    let (mut store, pid) = store_with_project();
    let aid = video_asset(&mut store, pid, Some(1000));
    let tc = create_track_with_clip(&mut store, pid, aid, "video".to_string(), 0).unwrap();
    set_track_locked(&mut store, tc.track.id, true).unwrap();
    assert!(get_tracks_by_project(&store, pid).unwrap()[0].is_locked);
    assert_eq!(add_clip(&mut store, tc.track.id, None, 0, 10).unwrap_err(), StoreError::LockedTrack);
    assert_eq!(move_clip(&mut store, tc.clip.id, 50).unwrap_err(), StoreError::LockedTrack);
    assert_eq!(update_clip_trim(&mut store, tc.clip.id, 0, 10).unwrap_err(), StoreError::LockedTrack);
    set_track_locked(&mut store, tc.track.id, false).unwrap();
    assert_eq!(move_clip(&mut store, tc.clip.id, 50).unwrap().start_time_ms, 50);
    assert_eq!(set_track_locked(&mut store, 9, true).unwrap_err(), StoreError::NotFound);
}

#[test]
fn move_clip_rejects_negative_start_and_missing_clip() {
    let (mut store, pid) = store_with_project();
    let aid = video_asset(&mut store, pid, Some(1000));
    let tc = create_track_with_clip(&mut store, pid, aid, "video".to_string(), 10).unwrap();
    assert_eq!(move_clip(&mut store, tc.clip.id, -5).unwrap_err(), StoreError::ConstraintViolation);
    assert_eq!(move_clip(&mut store, 12, 5).unwrap_err(), StoreError::NotFound);
    assert_eq!(get_clips_by_track(&store, tc.track.id).unwrap()[0].start_time_ms, 10);
}

#[test]
fn trim_is_checked_against_asset_duration() {
    let (mut store, pid) = store_with_project();
    let aid = video_asset(&mut store, pid, Some(1000));
    let tc = create_track_with_clip(&mut store, pid, aid, "video".to_string(), 0).unwrap();
    assert_eq!(update_clip_trim(&mut store, tc.clip.id, 0, 1001).unwrap_err(), StoreError::ConstraintViolation);
    assert_eq!(update_clip_trim(&mut store, tc.clip.id, 300, 300).unwrap_err(), StoreError::ConstraintViolation);
    let c = update_clip_trim(&mut store, tc.clip.id, 200, 1000).unwrap();
    assert_eq!(c.asset_start_offset_ms, 200);
    assert_eq!(c.asset_end_offset_ms, 1000);
    assert_eq!(c.duration_ms, 1000);
    assert_eq!(update_clip_trim(&mut store, 40, 0, 1).unwrap_err(), StoreError::NotFound);
}

#[test]
fn settings_default_when_absent() {
    assert_eq!(resolve_settings(None, None, None), (30, 1920, 1080));
    assert_eq!(resolve_settings(Some(60), Some(1280), Some(720)), (60, 1280, 720));
}

#[test]
fn project_settings_must_be_positive() {
    let mut store = Store::new();
    let r = create_project(&mut store, "Bad".to_string(), 0, 0, 0, NOW.to_string());
    assert_eq!(r.unwrap_err(), StoreError::ConstraintViolation);
    let r = create_project(&mut store, "Bad".to_string(), 30, 1920, -1, NOW.to_string());
    assert_eq!(r.unwrap_err(), StoreError::ConstraintViolation);
    let r = create_project_command(&mut store, "Bad".to_string(), Some(0), None, None, NOW.to_string());
    assert_eq!(r.unwrap_err(), StoreError::ConstraintViolation);
    assert_eq!(store.project_count(), 0);
    assert!(settings_are_valid(1, 1, 1));
    assert!(!settings_are_valid(1, 0, 1));
}

#[test]
fn create_project_command_sets_timestamps() {
    let mut store = Store::new();
    let p = create_project_command(&mut store, "T".to_string(), None, None, None, NOW.to_string()).unwrap();
    assert_eq!(p.created_at, NOW);
    assert_eq!(p.updated_at, NOW);
    assert_eq!((p.frame_rate, p.resolution_width, p.resolution_height), (30, 1920, 1080));
}

#[test]
fn asset_values_must_not_be_negative() {
    let (mut store, pid) = store_with_project();
    let bad_size = add_asset(&mut store, pid, "/a".to_string(), "video".to_string(), Some(10), None, None, -1, NOW.to_string());
    assert_eq!(bad_size.unwrap_err(), StoreError::ConstraintViolation);
    let bad_duration = add_asset(&mut store, pid, "/a".to_string(), "video".to_string(), Some(-10), None, None, 5, NOW.to_string());
    assert_eq!(bad_duration.unwrap_err(), StoreError::ConstraintViolation);
    let bad_width = add_asset(&mut store, pid, "/a".to_string(), "image".to_string(), None, Some(-1), Some(2), 5, NOW.to_string());
    assert_eq!(bad_width.unwrap_err(), StoreError::ConstraintViolation);
    assert_eq!(store.asset_count(), 0);
    let missing = add_asset(&mut store, 8, "/a".to_string(), "video".to_string(), Some(-10), None, None, 5, NOW.to_string());
    assert_eq!(missing.unwrap_err(), StoreError::NotFound);
}

#[test]
fn track_with_negative_start_is_refused() {
    let (mut store, pid) = store_with_project();
    let aid = video_asset(&mut store, pid, Some(100));
    let r = create_track_with_clip(&mut store, pid, aid, "video".to_string(), -1);
    assert_eq!(r.unwrap_err(), StoreError::ConstraintViolation);
    assert_eq!(store.track_count(), 0);
    assert_eq!(store.clip_count(), 0);
}

#[test]
fn only_aborted_transactions_are_retried_once() {
    assert!(should_retry(StoreError::TransactionFailure, 1));
    assert!(!should_retry(StoreError::TransactionFailure, 2));
    assert!(!should_retry(StoreError::NotFound, 1));
    assert!(!should_retry(StoreError::ConstraintViolation, 0));
}

#[test]
fn reference_checks() {
    assert_eq!(check_found(true), Ok(()));
    assert_eq!(check_found(false), Err(StoreError::NotFound));
    assert_eq!(check_same_project(3, 3), Ok(()));
    assert_eq!(check_same_project(3, 4), Err(StoreError::ConstraintViolation));
    assert_eq!(check_clip_start(0), Ok(()));
    assert_eq!(check_clip_start(-1), Err(StoreError::ConstraintViolation));
}
