//! Configuration, start and stop, and what is shown.

use std::path::PathBuf;
use virtual_print_sink::server::config::env_port;
use virtual_print_sink::server::controller::{ServerError, StartReport, ThreadDuty};
use virtual_print_sink::server::event::{
    error_text, job_saved_text, saved_event, start_failed_text,
};
use virtual_print_sink::server::{ServerConfig, ServerController, ServerEvent};
use virtual_print_sink::storage::SavedJob;

#[test]
fn ports_by_platform() {
    let dir = PathBuf::from("print_jobs");
    let config = ServerConfig::default_for_platform(dir.clone(), true, None, None);
    assert_eq!((config.lpr_port, config.ipp_port), (515, 8631));
    assert_eq!(config.output_dir, dir);
    let config = ServerConfig::default_for_platform(dir, false, None, None);
    assert_eq!((config.lpr_port, config.ipp_port), (1515, 8631));
}

#[test]
fn ports_by_environment() {
    let dir = PathBuf::from("print_jobs");
    let config = ServerConfig::default_for_platform(dir, false, Some("2515"), Some("18631"));
    assert_eq!((config.lpr_port, config.ipp_port), (2515, 18631));
    assert_eq!(
        config.endpoint_summary(),
        "LPR: lpd://127.0.0.1:2515/virtual    |    IPP: ipp://127.0.0.1:18631/printers/virtual"
    );
    assert_eq!(
        config.running_text(),
        "稼働中 - LPR 127.0.0.1:2515 / IPP 127.0.0.1:18631"
    );
}

#[test]
fn ports_that_are_no_numbers_do_not_count() {
    assert_eq!(env_port(Some("65535"), 7), 65535);
    assert_eq!(env_port(Some("+80"), 7), 80);
    for text in ["65536", "", " 80", "80 ", "-1", "0x50", "+"] {
        assert_eq!(env_port(Some(text), 7), 7);
    }
    assert_eq!(env_port(None, 7), 7);
}

#[test]
fn servers_start_once_and_stop() {
    let mut controller = ServerController::default();
    assert!(!controller.is_running());
    assert_eq!(controller.stop(), None);
    assert!(controller.start().is_ok());
    let (duty, answer) = controller.started(StartReport::Ready);
    assert_eq!(duty, ThreadDuty::Keep);
    assert!(answer.is_ok());
    assert!(controller.is_running());
    let error = controller.start().unwrap_err();
    assert!(matches!(error, ServerError::AlreadyRunning));
    assert_eq!(error.message(), "server is already running");
    assert_eq!(controller.stop(), Some(ThreadDuty::StopAndJoin));
    assert!(!controller.is_running());
    assert_eq!(controller.stop(), None);
}

#[test]
fn servers_that_do_not_start_do_not_run() {
    let mut controller = ServerController::default();
    let (duty, answer) = controller.started(StartReport::Failed("LPR bind failed".to_string()));
    assert_eq!(duty, ThreadDuty::Join);
    assert_eq!(answer.unwrap_err().message(), "LPR bind failed");
    assert!(!controller.is_running());
    let (duty, answer) = controller.started(StartReport::TimedOut("timed out".to_string()));
    assert_eq!(duty, ThreadDuty::StopAndJoin);
    assert_eq!(
        answer.unwrap_err().message(),
        "server start timed out: timed out"
    );
    assert!(!controller.is_running());
}

#[test]
fn what_is_shown() {
    let job = SavedJob {
        raw_path: PathBuf::from("/x/y.pdf"),
        metadata_path: PathBuf::from("/x/y.json"),
        bytes: 1024,
    };
    match saved_event("IPP", job) {
        ServerEvent::JobSaved { protocol, path, bytes } => assert_eq!(
            job_saved_text(protocol, &path.display().to_string(), bytes),
            "[IPP] /x/y.pdf (1024 bytes)"
        ),
        ServerEvent::Status(_) | ServerEvent::Error(_) => panic!("another event"),
    }
    assert_eq!(error_text("boom"), "エラー: boom");
    assert_eq!(start_failed_text("boom"), "起動失敗: boom");
}
