use table_tv::error::ApiError;
use table_tv::server::ApiServer;
use table_tv::stream::{rtsp_preview_ffmpeg_args, StreamRegistry};
use table_tv::text::{decimal_string, strip_prefix, trim_end_matches_char, trim_start_matches};
use table_tv::upgrade::{apt_output_line, apt_spawn_failure_line, check_for_upgrades, upgrade_now};

#[test]
fn decimal_rendering() {
    assert_eq!(decimal_string(0), "0");
    assert_eq!(decimal_string(7), "7");
    assert_eq!(decimal_string(650), "650");
    assert_eq!(decimal_string(u32::MAX), u32::MAX.to_string());
}

#[test]
fn trimming() {
    assert_eq!(trim_end_matches_char("a//", '/'), "a");
    assert_eq!(trim_end_matches_char("///", '/'), "");
    assert_eq!(trim_start_matches("abab-x", "ab"), "-x");
    assert_eq!(strip_prefix("Bearer t", "Bearer "), Some("t".to_string()));
    assert_eq!(strip_prefix("x", "Bearer "), None);
}

#[test]
fn upgrade_commands() {
    assert_eq!(check_for_upgrades(true).unwrap(), vec!["update"]);
    assert_eq!(upgrade_now(true, "table-tv").unwrap(), vec!["install", "-y", "table-tv"]);
    assert!(matches!(check_for_upgrades(false), Err(ApiError::Forbidden(_))));
    assert!(matches!(upgrade_now(false, "table-tv"), Err(ApiError::Forbidden(_))));
    assert_eq!(apt_output_line("Reading".to_string()), "Reading\n");
    assert_eq!(apt_spawn_failure_line("not found"), "Error spawning apt: not found\n");
}

#[test]
fn listen_address() {
    assert_eq!(ApiServer::listen_address(None), "0.0.0.0:8080");
    assert_eq!(ApiServer::listen_address(Some("9000".to_string())), "0.0.0.0:9000");
}

#[test]
fn rtsp_preview_args() {
    let args = rtsp_preview_ffmpeg_args(
        vec!["-rtsp_transport".to_string(), "tcp".to_string(), "-i".to_string(), "rtsp://c".to_string()],
        "/data/o.png".to_string(),
        "[0][1]overlay[out]".to_string(),
    );
    assert_eq!(
        args,
        vec![
            "-y", "-rtsp_transport", "tcp", "-i", "rtsp://c", "-f", "image2", "-loop", "1", "-r", "30",
            "-i", "/data/o.png", "-filter_complex", "[0][1]overlay[out]", "-map", "[out]", "-f",
            "mjpeg", "-q:v", "5", "-",
        ]
    );
}

#[test]
fn stream_registry_read_after_write() {
    let mut reg: StreamRegistry<u32> = StreamRegistry::new();
    assert_eq!(reg.get("cam1"), None);
    reg.insert("cam1".to_string(), 1);
    reg.insert("cam2".to_string(), 2);
    assert_eq!(reg.get("cam1"), Some(&1));
    reg.insert("cam1".to_string(), 10);
    assert_eq!(reg.get("cam1"), Some(&10));
    assert_eq!(reg.get("cam2"), Some(&2));
    assert_eq!(reg.remove("cam1"), Some(10));
    assert_eq!(reg.get("cam1"), None);
    assert_eq!(reg.remove("cam1"), None);
    assert_eq!(reg.get("cam2"), Some(&2));
}
