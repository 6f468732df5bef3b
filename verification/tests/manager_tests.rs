//! Tests of the track manager: creation, removal, mute/solo, events,
//! tombstones and control dispatch.

use lan_audio_streamer::control::{ControlMessage, TrackConfig, TrackConfigUpdate, TrackType};
use lan_audio_streamer::errors::TrackError;
use lan_audio_streamer::manager::{AdmitDecision, ControlOutcome, TrackEvent, TrackManager};
use lan_audio_streamer::track::TrackState;

fn config_named(name: &str) -> TrackConfig {
    TrackConfig {
        track_id: None,
        name: name.to_string(),
        device_id: "dev".to_string(),
        bitrate: 128_000,
        frame_size_us: 10_000,
        channels: 2,
        track_type: TrackType::Music,
        fec_enabled: false,
    }
}

#[test]
fn test_create_track() {
    let mut manager = TrackManager::new();

    let config = TrackConfig {
        track_id: None,
        name: "Test Track".to_string(),
        device_id: "test".to_string(),
        bitrate: 128000,
        frame_size_us: 10_000,
        channels: 2,
        track_type: TrackType::Music,
        fec_enabled: false,
    };

    let id = manager.create_track(config).unwrap();
    assert_eq!(id, 0);
    assert_eq!(manager.track_count(), 1);
}

#[test]
fn test_remove_track() {
    let mut manager = TrackManager::new();

    let config = TrackConfig::default();
    let id = manager.create_track(config).unwrap();

    assert!(manager.remove_track(id).is_ok());
    assert_eq!(manager.track_count(), 0);
}

#[test]
fn test_mute_solo() {
    let mut manager = TrackManager::new();

    let config1 = TrackConfig::default();
    let config2 = TrackConfig::default();

    let id1 = manager.create_track(config1).unwrap();
    let id2 = manager.create_track(config2).unwrap();

    manager.set_muted(id1, true).unwrap();
    assert!(!manager.should_output(id1));
    assert!(manager.should_output(id2));

    manager.set_muted(id1, false).unwrap();
    manager.set_solo(id1, true).unwrap();
    assert!(manager.should_output(id1));
    assert!(!manager.should_output(id2));
}

#[test]
fn solo_overrides_and_mute_wins() {
    // With tracks A, B, C: soloing B silences A and C; muting B then
    // silences B as well.
    let mut manager = TrackManager::new();
    let a = manager.create_track(config_named("A")).unwrap();
    let b = manager.create_track(config_named("B")).unwrap();
    let c = manager.create_track(config_named("C")).unwrap();

    manager.set_solo(b, true).unwrap();
    assert!(!manager.should_output(a));
    assert!(manager.should_output(b));
    assert!(!manager.should_output(c));

    manager.set_muted(b, true).unwrap();
    assert!(!manager.should_output(b));
}

#[test]
fn create_track_errors() {
    let mut manager = TrackManager::new();
    let mut config = TrackConfig::default();
    config.track_id = Some(7);
    manager.create_track(config.clone()).unwrap();
    assert_eq!(
        manager.create_track(config),
        Err(TrackError::AlreadyExists(7))
    );
    assert_eq!(
        manager.set_muted(9, true),
        Err(TrackError::NotFound(9))
    );
}

#[test]
fn capacity_limit_reached() {
    let mut manager = TrackManager::new();
    for _ in 0..256 {
        manager.create_track(TrackConfig::default()).unwrap();
    }
    assert_eq!(
        manager.create_track(TrackConfig::default()),
        Err(TrackError::MaxTracksReached(256))
    );
}

#[test]
fn events_published_in_order() {
    let mut manager = TrackManager::new();
    let id = manager.create_track(config_named("events")).unwrap();
    manager.start_track(id).unwrap();
    manager.stop_track(id).unwrap();
    let update = TrackConfigUpdate {
        name: None,
        device_id: Some("other-dev".to_string()),
        bitrate: None,
        frame_size_us: None,
        fec_enabled: None,
    };
    manager.update_track(id, update).unwrap();
    manager.remove_track(id).unwrap();

    let events = manager.take_events();
    assert_eq!(events.len(), 6);
    assert!(matches!(events[0], TrackEvent::Created(0)));
    assert!(matches!(events[1], TrackEvent::Started(0)));
    assert!(matches!(events[2], TrackEvent::Stopped(0)));
    match &events[3] {
        TrackEvent::DeviceChanged(id, old, new) => {
            assert_eq!(*id, 0);
            assert_eq!(old, "dev");
            assert_eq!(new, "other-dev");
        }
        other => panic!("unexpected event {:?}", other),
    }
    assert!(matches!(events[4], TrackEvent::ConfigUpdated(0)));
    assert!(matches!(events[5], TrackEvent::Removed(0)));
    assert!(manager.take_events().is_empty());
}

#[test]
fn update_without_device_change_publishes_once() {
    let mut manager = TrackManager::new();
    let id = manager.create_track(config_named("still")).unwrap();
    manager.take_events();
    let update = TrackConfigUpdate {
        name: Some("renamed".to_string()),
        device_id: Some("dev".to_string()),
        bitrate: Some(64_000),
        frame_size_us: None,
        fec_enabled: None,
    };
    manager.update_track(id, update).unwrap();
    let events = manager.take_events();
    assert_eq!(events.len(), 1);
    assert!(matches!(events[0], TrackEvent::ConfigUpdated(0)));
    let track = manager.get_track(id).unwrap();
    assert_eq!(track.name, "renamed");
    assert_eq!(track.config.bitrate, 64_000);
}

#[test]
fn tombstones_suppress_implicit_recreation() {
    let mut manager = TrackManager::new();
    let mut config = TrackConfig::default();
    config.track_id = Some(3);
    manager.create_track(config.clone()).unwrap();
    assert_eq!(manager.admit_incoming(3), AdmitDecision::Existing);
    assert_eq!(manager.admit_incoming(4), AdmitDecision::CreateNew);

    manager.remove_track(3).unwrap();
    assert_eq!(manager.admit_incoming(3), AdmitDecision::Tombstoned);

    // Explicit re-creation clears the tombstone.
    manager.create_track(config).unwrap();
    assert_eq!(manager.admit_incoming(3), AdmitDecision::Existing);
}

#[test]
fn track_lifecycle_and_statuses() {
    let mut manager = TrackManager::new();
    let id = manager.create_track(config_named("life")).unwrap();
    assert_eq!(manager.get_track(id).unwrap().state(), TrackState::Stopped);
    manager.start_track(id).unwrap();
    assert_eq!(manager.get_track(id).unwrap().state(), TrackState::Running);
    let statuses = manager.get_all_statuses();
    assert_eq!(statuses.len(), 1);
    assert_eq!(statuses[0].track_id, id);
    assert!(statuses[0].active);
    assert_eq!(statuses[0].name, "life");
    manager.stop_track(id).unwrap();
    assert!(!manager.get_all_statuses()[0].active);
    assert_eq!(manager.track_ids(), vec![id]);
}

#[test]
fn set_track_error_marks_track() {
    let mut manager = TrackManager::new();
    let id = manager.create_track(config_named("faulty")).unwrap();
    manager.take_events();
    manager
        .set_track_error(id, "engine fault".to_string())
        .unwrap();
    assert_eq!(manager.get_track(id).unwrap().state(), TrackState::Error);
    assert_eq!(
        manager.get_track(id).unwrap().last_error(),
        Some("engine fault".to_string())
    );
    let events = manager.take_events();
    assert_eq!(events.len(), 1);
    match &events[0] {
        TrackEvent::Error(eid, msg) => {
            assert_eq!(*eid, 0);
            assert_eq!(msg, "engine fault");
        }
        other => panic!("unexpected event {:?}", other),
    }
}

#[test]
fn apply_control_dispatch() {
    let mut manager = TrackManager::new();
    match manager.apply_control(ControlMessage::Ping) {
        ControlOutcome::Reply(ControlMessage::Pong) => {}
        other => panic!("unexpected outcome {:?}", other),
    }
    assert!(matches!(
        manager.apply_control(ControlMessage::ListDevices),
        ControlOutcome::NeedDevices
    ));
    assert!(matches!(
        manager.apply_control(ControlMessage::CreateTrack(TrackConfig::default())),
        ControlOutcome::NoReply
    ));
    match manager.apply_control(ControlMessage::GetStatus) {
        ControlOutcome::Reply(ControlMessage::Status(statuses)) => {
            assert_eq!(statuses.len(), 1)
        }
        other => panic!("unexpected outcome {:?}", other),
    }
    assert!(matches!(
        manager.apply_control(ControlMessage::SetMute { track_id: 0, muted: true }),
        ControlOutcome::NoReply
    ));
    assert!(!manager.should_output(0));
    // A command against a missing track is answered with an error reply.
    match manager.apply_control(ControlMessage::SetSolo { track_id: 42, solo: true }) {
        ControlOutcome::Reply(ControlMessage::Error { message }) => {
            assert_eq!(message, "track not found")
        }
        other => panic!("unexpected outcome {:?}", other),
    }
    assert!(matches!(
        manager.apply_control(ControlMessage::RemoveTrack { track_id: 0 }),
        ControlOutcome::NoReply
    ));
    assert_eq!(manager.track_count(), 0);
}
