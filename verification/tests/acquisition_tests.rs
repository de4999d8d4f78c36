use pms5003_exporter::acquisition::{
    AcqAction, AcqEvent, AcquisitionController, INITIAL_BACKOFF_MS, MAX_BACKOFF_MS,
};
use pms5003_exporter::codec::DecodeEvent;
use pms5003_exporter::frame::SensorFrame;

fn frame() -> SensorFrame {
    SensorFrame {
        pm1_0_standard: 1,
        pm2_5_standard: 2,
        pm10_standard: 3,
        pm1_0_atmospheric: 4,
        pm2_5_atmospheric: 5,
        pm10_atmospheric: 6,
        particles_gt_0_3um: 7,
        particles_gt_0_5um: 8,
        particles_gt_1_0um: 9,
        particles_gt_2_5um: 10,
        particles_gt_5_0um: 11,
        particles_gt_10um: 12,
    }
}

#[test]
fn backoff_strictly_increases_then_caps() {
    let mut ctl = AcquisitionController::new();
    let mut delays: Vec<u64> = Vec::new();
    for _ in 0..7 {
        match ctl.on_event(AcqEvent::OpenFailed) {
            AcqAction::WaitThenOpen(d) => delays.push(d),
            other => panic!("expected a scheduled reopen, got {:?}", other),
        }
    }
    assert_eq!(delays, vec![500, 1000, 2000, 4000, 5000, 5000, 5000]);
    assert_eq!(INITIAL_BACKOFF_MS, 500);
    assert_eq!(MAX_BACKOFF_MS, 5000);
    for pair in delays.windows(2) {
        // Strictly increasing until the ceiling, then constant at it.
        assert!(pair[0] < pair[1] || pair[0] == MAX_BACKOFF_MS);
        assert!(pair[1] <= MAX_BACKOFF_MS);
    }
}

#[test]
fn cancellation_stops_in_every_state() {
    let mut ctl = AcquisitionController::new();
    assert_eq!(ctl.on_event(AcqEvent::Cancelled), AcqAction::Stop);

    let mut ctl = AcquisitionController::new();
    ctl.on_event(AcqEvent::OpenFailed);
    assert_eq!(ctl.on_event(AcqEvent::Cancelled), AcqAction::Stop);

    let mut ctl = AcquisitionController::new();
    ctl.on_event(AcqEvent::OpenSucceeded);
    assert_eq!(ctl.on_event(AcqEvent::Cancelled), AcqAction::Stop);

    let mut ctl = AcquisitionController::new();
    ctl.on_event(AcqEvent::OpenSucceeded);
    ctl.on_event(AcqEvent::FrameDecoded(frame()));
    assert_eq!(ctl.on_event(AcqEvent::Cancelled), AcqAction::Stop);
}

#[test]
fn disconnect_mid_stream_reopens_with_backoff() {
    let mut ctl = AcquisitionController::new();
    assert_eq!(ctl.on_event(AcqEvent::OpenSucceeded), AcqAction::Read);
    assert_eq!(ctl.on_event(AcqEvent::FrameDecoded(frame())), AcqAction::PublishAndRead(frame()));
    // The stream drops: reopen after the current delay, which then doubles.
    assert_eq!(ctl.on_event(AcqEvent::StreamInterrupted), AcqAction::WaitThenOpen(500));
    assert_eq!(ctl.on_event(AcqEvent::OpenFailed), AcqAction::WaitThenOpen(1000));
    assert_eq!(ctl.on_event(AcqEvent::OpenFailed), AcqAction::WaitThenOpen(2000));
}

#[test]
fn first_frame_after_reopen_resets_the_backoff() {
    let mut ctl = AcquisitionController::new();
    ctl.on_event(AcqEvent::OpenFailed);
    ctl.on_event(AcqEvent::OpenFailed);
    ctl.on_event(AcqEvent::OpenFailed);
    assert_eq!(ctl.on_event(AcqEvent::OpenSucceeded), AcqAction::Read);
    assert_eq!(ctl.on_event(AcqEvent::FrameDecoded(frame())), AcqAction::PublishAndRead(frame()));
    // Back at the initial delay only because a frame was decoded.
    assert_eq!(ctl.on_event(AcqEvent::StreamInterrupted), AcqAction::WaitThenOpen(500));
}

#[test]
fn open_without_a_frame_keeps_backing_off() {
    let mut ctl = AcquisitionController::new();
    ctl.on_event(AcqEvent::OpenFailed); // waited 500, delay now 1000
    assert_eq!(ctl.on_event(AcqEvent::OpenSucceeded), AcqAction::Read);
    assert_eq!(ctl.on_event(AcqEvent::ProtocolAnomaly), AcqAction::Read);
    // No frame came, so the flapping connection does not reset the delay.
    assert_eq!(ctl.on_event(AcqEvent::StreamInterrupted), AcqAction::WaitThenOpen(1000));
}

#[test]
fn protocol_anomalies_never_reconnect() {
    let mut ctl = AcquisitionController::new();
    ctl.on_event(AcqEvent::OpenSucceeded);
    assert_eq!(ctl.on_decode_event(DecodeEvent::ChecksumMismatch), AcqAction::Read);
    assert_eq!(ctl.on_decode_event(DecodeEvent::UnsupportedFrameLength), AcqAction::Read);
    assert_eq!(ctl.on_decode_event(DecodeEvent::NeedMoreData), AcqAction::Read);
    assert_eq!(
        ctl.on_decode_event(DecodeEvent::FrameDecoded(frame())),
        AcqAction::PublishAndRead(frame())
    );
}
