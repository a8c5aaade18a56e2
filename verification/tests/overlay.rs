use table_tv::overlay::{
    clear_overlay, overlay_name_for_camera, overlay_path_for_camera, overlay_path_for_camera_piece,
    overlay_piece_texts, refresh_overlay_files, render_overlay_pieces,
    resolve_overlay_paths_for_camera, restore_overlay, restore_overlay_from_db, sanitize_char,
    sanitized_char_given, update_overlay, ActiveMatch, MatchOverlay, MatchPlayer, OverlayCamera,
    OverlayPath, OverlayPlayer, Rating,
};

#[test]
fn overlay_path_for_camera_piece_sanitizes_name() {
    let path = overlay_path_for_camera_piece("Camera 1", "p1name");
    assert!(path.to_string_lossy().ends_with("rtmp-overlay-Camera_1-p1name.txt"));
}

#[test]
fn overlay_path_for_camera_piece_allows_alphanumeric_dash_underscore() {
    let path = overlay_path_for_camera_piece("cam-01_abc", "score1");
    assert!(path.to_string_lossy().ends_with("rtmp-overlay-cam-01_abc-score1.txt"));
}

#[test]
fn overlay_path_for_camera_piece_empty_default() {
    let path = overlay_path_for_camera_piece("", "p2name");
    assert!(path.to_string_lossy().ends_with("rtmp-overlay-default-p2name.txt"));
}

#[test]
fn overlay_path_for_camera_piece_special_chars_become_underscore() {
    let path = overlay_path_for_camera_piece("cam@home!", "raceto");
    assert!(path.to_string_lossy().ends_with("rtmp-overlay-cam_home_-raceto.txt"));
}

#[test]
fn overlay_path_in_data_dir() {
    let path = overlay_path_for_camera_piece("test", "p1rating");
    assert!(path.to_string_lossy().contains("data"));
}

#[test]
fn overlay_player_from_match_player_apa_rating() {
    let p = MatchPlayer {
        name: "Alice".to_string(),
        race_to: 9,
        games_won: 3,
        rating: Some(Rating::Apa(5)),
    };
    let overlay = OverlayPlayer::from_match_player(&p);
    assert_eq!(overlay.name, "Alice");
    assert_eq!(overlay.rating.as_deref(), Some("APA 5"));
    assert_eq!(overlay.games_won, 3);
    assert_eq!(overlay.race_to, 9);
}

#[test]
fn overlay_player_from_match_player_fargo_rating() {
    let p = MatchPlayer {
        name: "Bob".to_string(),
        race_to: 7,
        games_won: 2,
        rating: Some(Rating::Fargo(650)),
    };
    let overlay = OverlayPlayer::from_match_player(&p);
    assert_eq!(overlay.rating.as_deref(), Some("Fargo 650"));
}

#[test]
fn overlay_player_from_match_player_no_rating() {
    let p = MatchPlayer {
        name: "Charlie".to_string(),
        race_to: 5,
        games_won: 0,
        rating: None,
    };
    let overlay = OverlayPlayer::from_match_player(&p);
    assert_eq!(overlay.rating, None);
}

fn player(name: &str, rating: Option<&str>, games_won: u8, race_to: u8) -> OverlayPlayer {
    OverlayPlayer {
        name: name.to_string(),
        rating: rating.map(|r| r.to_string()),
        games_won,
        race_to,
    }
}

fn league_match() -> MatchOverlay {
    MatchOverlay {
        player_one: player("Alice", Some("APA 5"), 3, 5),
        player_two: player("Bob", None, 4, 7),
        is_practice: false,
    }
}

fn rtsp_camera(id: &str, name: &str) -> OverlayCamera {
    OverlayCamera { id: Some(id.to_string()), name: name.to_string(), is_rtsp: true }
}

fn contents(files: &[table_tv::overlay::OverlayFile]) -> Vec<String> {
    files.iter().map(|f| f.content.clone()).collect()
}

#[test]
fn overlay_path_full_text() {
    let path = overlay_path_for_camera_piece("Cam 2", "score2");
    assert_eq!(path.as_str(), "data/rtmp-overlay-Cam_2-score2.txt");
    assert_eq!(
        overlay_path_for_camera("Cam 2").to_string_lossy(),
        "data/rtmp-overlay-Cam_2-p1name.txt"
    );
}

#[test]
fn overlay_name_keeps_non_ascii_letters() {
    assert_eq!(overlay_name_for_camera("Café-1"), "Café-1");
    assert_eq!(overlay_name_for_camera("a/b c"), "a_b_c");
    assert_eq!(overlay_name_for_camera("✓"), "_");
}

#[test]
fn overlay_name_sanitizing_twice_is_sanitizing_once() {
    for name in ["", "Camera 1", "cam@home!", "Café", "default", "__--"] {
        let once = overlay_name_for_camera(name);
        assert_eq!(overlay_name_for_camera(&once), once);
    }
}

#[test]
fn sanitize_char_given_classification() {
    assert_eq!(sanitized_char_given('x', true), 'x');
    assert_eq!(sanitized_char_given('x', false), '_');
    assert_eq!(sanitized_char_given('-', false), '-');
    assert_eq!(sanitized_char_given('_', false), '_');
    assert_eq!(sanitize_char('7'), '7');
    assert_eq!(sanitize_char(' '), '_');
    assert_eq!(sanitize_char('é'), 'é');
}

#[test]
fn render_league_match_pieces() {
    let files = render_overlay_pieces("cam", Some(&league_match()));
    assert_eq!(
        contents(&files),
        vec!["Alice", "APA 5", "Bob", "", "race to", "5-7", "3", "4"]
    );
    let paths: Vec<String> = files.iter().map(|f| f.path.to_string_lossy()).collect();
    assert_eq!(
        paths,
        vec![
            "data/rtmp-overlay-cam-p1name.txt",
            "data/rtmp-overlay-cam-p1rating.txt",
            "data/rtmp-overlay-cam-p2name.txt",
            "data/rtmp-overlay-cam-p2rating.txt",
            "data/rtmp-overlay-cam-raceto.txt",
            "data/rtmp-overlay-cam-raceto2.txt",
            "data/rtmp-overlay-cam-score1.txt",
            "data/rtmp-overlay-cam-score2.txt",
        ]
    );
}

#[test]
fn render_equal_races_show_one_number() {
    let mut m = league_match();
    m.player_two.race_to = 5;
    m.player_one.games_won = 10;
    let texts = overlay_piece_texts(Some(&m));
    assert_eq!(texts[5], "5");
    assert_eq!(texts[6], "10");
}

#[test]
fn render_practice_pieces() {
    let mut m = league_match();
    m.is_practice = true;
    m.player_one.games_won = 254;
    let files = render_overlay_pieces("cam", Some(&m));
    assert_eq!(
        contents(&files),
        vec!["Practice: Alice", " ", " ", " ", "Rack #255", " ", " ", " "]
    );
}

#[test]
fn render_nothing_blanks_every_piece() {
    let files = render_overlay_pieces("cam", None);
    assert_eq!(files.len(), 8);
    assert!(files.iter().all(|f| f.content == " "));
    let mut paths: Vec<String> = files.iter().map(|f| f.path.to_string_lossy()).collect();
    paths.sort();
    paths.dedup();
    assert_eq!(paths.len(), 8);
}

fn active_match(ended: bool, practice: bool) -> ActiveMatch {
    ActiveMatch {
        player_one: MatchPlayer {
            name: "Ann".to_string(),
            race_to: 3,
            games_won: 1,
            rating: Some(Rating::Fargo(480)),
        },
        player_two: MatchPlayer { name: "Ben".to_string(), race_to: 3, games_won: 2, rating: None },
        is_practice: practice,
        has_ended: ended,
    }
}

#[test]
fn match_overlay_for_active_and_ended_matches() {
    let o = MatchOverlay::for_match(Some(active_match(false, false))).unwrap();
    assert_eq!(o.player_one.rating.as_deref(), Some("Fargo 480"));
    assert_eq!(o.player_two.games_won, 2);
    assert!(!o.is_practice);
    assert_eq!(MatchOverlay::for_match(Some(active_match(true, false))), None);
    assert_eq!(MatchOverlay::for_match(None), None);
}

#[test]
fn update_overlay_uses_given_overlay_without_lookup() {
    let cam = rtsp_camera("c1", "Table 1");
    let u = update_overlay(Some(&cam), Some(league_match()), || -> Option<ActiveMatch> {
        panic!("no lookup expected")
    })
    .unwrap();
    assert_eq!(u.overlay, Some(league_match()));
    assert_eq!(u.files[0].content, "Alice");
    assert_eq!(u.files[0].path.as_str(), "data/rtmp-overlay-Table_1-p1name.txt");
}

#[test]
fn update_overlay_looks_up_active_match() {
    let cam = rtsp_camera("c1", "T");
    let u = update_overlay(Some(&cam), None, || Some(active_match(false, true))).unwrap();
    assert!(u.overlay.as_ref().unwrap().is_practice);
    assert_eq!(u.files[0].content, "Practice: Ann");
    assert_eq!(u.files[4].content, "Rack #2");
    let ended = update_overlay(Some(&cam), None, || Some(active_match(true, true))).unwrap();
    assert_eq!(ended.overlay, None);
    assert!(ended.files.iter().all(|f| f.content == " "));
}

#[test]
fn update_overlay_skips_missing_or_non_rtsp_camera() {
    let usb = OverlayCamera { id: Some("u".to_string()), name: "usb".to_string(), is_rtsp: false };
    assert!(update_overlay(Some(&usb), Some(league_match()), || None).is_none());
    assert!(update_overlay(None, Some(league_match()), || None).is_none());
}

#[test]
fn clear_overlay_only_when_shown() {
    let cam = rtsp_camera("c1", "T");
    let cleared = clear_overlay(Some(&cam), Some(&league_match())).unwrap();
    assert_eq!(cleared.overlay, None);
    assert!(cleared.files.iter().all(|f| f.content == " "));
    assert!(clear_overlay(Some(&cam), None).is_none());
    let usb = OverlayCamera { id: None, name: "usb".to_string(), is_rtsp: false };
    assert!(clear_overlay(Some(&usb), Some(&league_match())).is_none());
    assert!(clear_overlay(None, Some(&league_match())).is_none());
}

#[test]
fn restore_picks_first_rtsp_camera_with_active_match() {
    let cams = vec![
        OverlayCamera { id: None, name: "a".to_string(), is_rtsp: true },
        OverlayCamera { id: Some("usb".to_string()), name: "b".to_string(), is_rtsp: false },
        rtsp_camera("idle", "c"),
        rtsp_camera("busy", "d"),
        rtsp_camera("busy2", "e"),
    ];
    let asked = std::cell::RefCell::new(Vec::new());
    let found = restore_overlay_from_db(&cams, |id: &String| {
        asked.borrow_mut().push(id.clone());
        id.starts_with("busy") || id == "usb"
    });
    assert_eq!(found, Some("busy".to_string()));
    assert_eq!(*asked.borrow(), vec!["usb", "idle", "busy"]);
    assert_eq!(restore_overlay_from_db(&cams, |_: &String| false), None);
}

#[test]
fn refresh_shows_each_cameras_own_match() {
    let cams = vec![
        rtsp_camera("1", "one"),
        OverlayCamera { id: Some("2".to_string()), name: "two".to_string(), is_rtsp: false },
        rtsp_camera("3", "three"),
        OverlayCamera { id: None, name: "four".to_string(), is_rtsp: true },
    ];
    let asked = std::cell::RefCell::new(Vec::new());
    let files = refresh_overlay_files(&cams, |id: &String| {
        asked.borrow_mut().push(id.clone());
        if id == "1" {
            Some(active_match(false, false))
        } else {
            Some(active_match(false, true))
        }
    });
    assert_eq!(*asked.borrow(), vec!["1", "3"]);
    assert_eq!(files.len(), 24);
    assert_eq!(files[0].path.as_str(), "data/rtmp-overlay-one-p1name.txt");
    assert_eq!(files[0].content, "Ann");
    assert_eq!(files[8].path.as_str(), "data/rtmp-overlay-three-p1name.txt");
    assert_eq!(files[8].content, "Practice: Ann");
    assert_eq!(files[16].path.as_str(), "data/rtmp-overlay-four-p1name.txt");
    assert!(files[16..].iter().all(|f| f.content == " "));
}

#[test]
fn update_overlay_ignores_overflowing_overlay_on_non_rtsp_camera() {
    let usb = OverlayCamera { id: Some("u".to_string()), name: "usb".to_string(), is_rtsp: false };
    let mut m = league_match();
    m.is_practice = true;
    m.player_one.games_won = 255;
    assert!(update_overlay(Some(&usb), Some(m), || None).is_none());
    let cam = rtsp_camera("c1", "T");
    let mut ended = active_match(true, true);
    ended.player_one.games_won = 255;
    let u = update_overlay(Some(&cam), None, move || Some(ended)).unwrap();
    assert_eq!(u.overlay, None);
}

#[test]
fn resolve_paths_in_order_and_stops_at_first_failure() {
    let ok = resolve_overlay_paths_for_camera("cam", |p: &OverlayPath| Ok(format!("/abs/{}", p.as_str())))
        .unwrap();
    assert_eq!(ok.p1name, "/abs/data/rtmp-overlay-cam-p1name.txt");
    assert_eq!(ok.score2, "/abs/data/rtmp-overlay-cam-score2.txt");
    let asked = std::cell::RefCell::new(0);
    let err = resolve_overlay_paths_for_camera("cam", |p: &OverlayPath| {
        *asked.borrow_mut() += 1;
        if p.as_str().ends_with("raceto.txt") {
            Err(format!("missing {}", p.as_str()))
        } else {
            Ok(p.to_string_lossy())
        }
    });
    assert_eq!(err.err(), Some("missing data/rtmp-overlay-cam-raceto.txt".to_string()));
    assert_eq!(*asked.borrow(), 5);
}

#[test]
fn restore_updates_the_picked_camera_once() {
    let cams = vec![rtsp_camera("idle", "a"), rtsp_camera("busy", "Table 2"), rtsp_camera("busy2", "c")];
    let u = restore_overlay(
        &cams,
        |id: &String| id.starts_with("busy"),
        |id: &String| Some(rtsp_camera(id, if id == "busy" { "Table 2" } else { "?" })),
        |id: &String| {
            assert_eq!(id, "busy");
            Some(active_match(false, false))
        },
    )
    .unwrap();
    assert_eq!(u.overlay.as_ref().unwrap().player_one.name, "Ann");
    assert_eq!(u.files.len(), 8);
    assert_eq!(u.files[0].path.as_str(), "data/rtmp-overlay-Table_2-p1name.txt");
    assert!(restore_overlay(&cams, |_: &String| false, |_: &String| None, |_: &String| None).is_none());
    let usb = |id: &String| Some(OverlayCamera { id: Some(id.clone()), name: "u".to_string(), is_rtsp: false });
    assert!(restore_overlay(&cams, |_: &String| true, usb, |_: &String| None).is_none());
}
