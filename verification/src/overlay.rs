//! Match overlay: the stream shows eight separate text pieces (player names,
//! ratings, race and score), each kept in a text file of its own that FFmpeg
//! re-reads. This module decides the file of each piece and what it holds.
use vstd::prelude::*;

use crate::text::{append_decimal, decimal, decimal_string, opt_text, push_char};

verus! {

/// Overlay piece identifiers.
pub const OVERLAY_P1_NAME: &'static str = "p1name";
pub const OVERLAY_P1_RATING: &'static str = "p1rating";
pub const OVERLAY_P2_NAME: &'static str = "p2name";
pub const OVERLAY_P2_RATING: &'static str = "p2rating";
pub const OVERLAY_RACE_TO: &'static str = "raceto";
pub const OVERLAY_RACE_TO2: &'static str = "raceto2";
pub const OVERLAY_SCORE1: &'static str = "score1";
pub const OVERLAY_SCORE2: &'static str = "score2";

/// The eight pieces, in the order in which they are rendered.
pub open spec fn piece_names() -> Seq<Seq<char>> {
    seq![
        OVERLAY_P1_NAME@,
        OVERLAY_P1_RATING@,
        OVERLAY_P2_NAME@,
        OVERLAY_P2_RATING@,
        OVERLAY_RACE_TO@,
        OVERLAY_RACE_TO2@,
        OVERLAY_SCORE1@,
        OVERLAY_SCORE2@,
    ]
}

/// The identifier of piece `i` (in render order).
pub fn piece_name(i: usize) -> (r: &'static str)
    requires
        i < 8,
    ensures
        r@ == piece_names()[i as int],
{
    if i == 0 {
        OVERLAY_P1_NAME
    } else if i == 1 {
        OVERLAY_P1_RATING
    } else if i == 2 {
        OVERLAY_P2_NAME
    } else if i == 3 {
        OVERLAY_P2_RATING
    } else if i == 4 {
        OVERLAY_RACE_TO
    } else if i == 5 {
        OVERLAY_RACE_TO2
    } else if i == 6 {
        OVERLAY_SCORE1
    } else {
        OVERLAY_SCORE2
    }
}

// ---------------------------------------------------------------------------
// Camera names in file names
// ---------------------------------------------------------------------------

/// What `char::is_alphanumeric` answers for `c` (Unicode's Alphabetic property
/// or a numeric general category).
pub uninterp spec fn char_is_alphanumeric(c: char) -> bool;

/// Trusted: calls `char::is_alphanumeric`; the contract only names its result.
#[verifier::external_body]
fn unicode_is_alphanumeric(c: char) -> (b: bool)
    ensures
        b == char_is_alphanumeric(c),
{
    c.is_alphanumeric()
}

/// An ASCII letter or digit.
pub open spec fn ascii_alphanumeric(c: char) -> bool {
    ||| 0x61 <= (c as u32) <= 0x7a
    ||| 0x41 <= (c as u32) <= 0x5a
    ||| 0x30 <= (c as u32) <= 0x39
}

/// Whether `c` is alphanumeric. On ASCII characters the Unicode classification
/// of `char::is_alphanumeric` is exactly the letters and digits, so those are
/// decided here; any other character is asked of `char::is_alphanumeric`.
pub open spec fn alphanumeric(c: char) -> bool {
    if (c as u32) < 0x80 {
        ascii_alphanumeric(c)
    } else {
        char_is_alphanumeric(c)
    }
}

/// A character that may stand in a file name as it is.
pub open spec fn kept_in_file_name(c: char) -> bool {
    alphanumeric(c) || c == '-' || c == '_'
}

/// The character that stands for `c` in a file name.
pub open spec fn sanitized_char(c: char) -> char {
    if kept_in_file_name(c) {
        c
    } else {
        '_'
    }
}

/// The name used for a camera's overlay files: every character kept as it is
/// when alphanumeric, `-` or `_`, else replaced by `_`; `default` for an
/// empty camera name.
pub open spec fn overlay_name(camera: Seq<char>) -> Seq<char> {
    if camera.len() == 0 {
        seq!['d', 'e', 'f', 'a', 'u', 'l', 't']
    } else {
        camera.map_values(|c: char| sanitized_char(c))
    }
}

/// The character that stands for `c`, given whether `c` is alphanumeric.
pub fn sanitized_char_given(c: char, is_alphanumeric: bool) -> (r: char)
    ensures
        r == (if is_alphanumeric || c == '-' || c == '_' { c } else { '_' }),
{
    if is_alphanumeric || c == '-' || c == '_' {
        c
    } else {
        '_'
    }
}

/// The character that stands for `c` in a file name.
pub fn sanitize_char(c: char) -> (r: char)
    ensures
        r == sanitized_char(c),
{
    let code = c as u32;
    let is_alphanumeric = if code < 0x80 {
        (0x61 <= code && code <= 0x7a) || (0x41 <= code && code <= 0x5a) || (0x30 <= code
            && code <= 0x39)
    } else {
        unicode_is_alphanumeric(c)
    };
    sanitized_char_given(c, is_alphanumeric)
}

/// The name used for a camera's overlay files.
pub fn overlay_name_for_camera(camera_name: &str) -> (r: String)
    ensures
        r@ == overlay_name(camera_name@),
{
    let n = camera_name.unicode_len();
    let mut sanitized = String::new();
    let mut i: usize = 0;
    while i < n
        invariant
            i <= n,
            n == camera_name@.len(),
            sanitized@ == camera_name@.subrange(0, i as int).map_values(
                |c: char| sanitized_char(c),
            ),
        decreases n - i,
    {
        let c = camera_name.get_char(i);
        push_char(&mut sanitized, sanitize_char(c));
        assert(sanitized@ =~= camera_name@.subrange(0, i + 1).map_values(
            |c: char| sanitized_char(c),
        ));
        i = i + 1;
    }
    if n == 0 {
        let r = String::from_str("default");
        proof {
            reveal_strlit("default");
        }
        assert(r@ =~= seq!['d', 'e', 'f', 'a', 'u', 'l', 't']);
        r
    } else {
        assert(camera_name@.subrange(0, n as int) =~= camera_name@);
        sanitized
    }
}

// ---------------------------------------------------------------------------
// Overlay file paths
// ---------------------------------------------------------------------------

/// A path in the overlay directory, as text. Paths join with `/`, as on the
/// Linux hosts the streams run on.
#[derive(Clone, Debug)]
pub struct OverlayPath {
    pub text: String,
}

impl View for OverlayPath {
    type V = Seq<char>;

    open spec fn view(&self) -> Seq<char> {
        self.text@
    }
}

impl OverlayPath {
    /// The path as text.
    pub fn to_string_lossy(&self) -> (r: String)
        ensures
            r@ == self@,
    {
        self.text.clone()
    }

    /// The path as a string slice.
    pub fn as_str(&self) -> (r: &str)
        ensures
            r@ == self@,
    {
        self.text.as_str()
    }
}

/// The file name of a camera's overlay piece.
pub open spec fn overlay_file_name(camera: Seq<char>, piece: Seq<char>) -> Seq<char> {
    "rtmp-overlay-"@ + overlay_name(camera) + "-"@ + piece + ".txt"@
}

/// The path of a camera's overlay piece: the file name in the `data` directory.
pub open spec fn overlay_path(camera: Seq<char>, piece: Seq<char>) -> Seq<char> {
    "data/"@ + overlay_file_name(camera, piece)
}

/// Overlay text file path for a camera piece.
pub fn overlay_path_for_camera_piece(camera_name: &str, piece: &str) -> (r: OverlayPath)
    ensures
        r@ == overlay_path(camera_name@, piece@),
{
    let name = overlay_name_for_camera(camera_name);
    let mut text = String::from_str("data/");
    text.append("rtmp-overlay-");
    text.append(name.as_str());
    text.append("-");
    text.append(piece);
    text.append(".txt");
    assert(text@ =~= overlay_path(camera_name@, piece@));
    OverlayPath { text }
}

/// Overlay path for a camera (the `p1name` piece; used by the stream API).
pub fn overlay_path_for_camera(camera_name: &str) -> (r: OverlayPath)
    ensures
        r@ == overlay_path(camera_name@, OVERLAY_P1_NAME@),
{
    overlay_path_for_camera_piece(camera_name, OVERLAY_P1_NAME)
}


// ---------------------------------------------------------------------------
// Players and match overlays
// ---------------------------------------------------------------------------

/// A player's rating as recorded for a match.
#[derive(Clone, Copy, Debug, PartialEq, Eq)]
pub enum Rating {
    /// APA skill level.
    Apa(u32),
    /// Fargo rating.
    Fargo(u32),
}

/// A player of a pool match, as the match record holds it.
#[derive(Clone, Debug, PartialEq, Eq)]
pub struct MatchPlayer {
    pub name: String,
    pub race_to: u8,
    pub games_won: u8,
    pub rating: Option<Rating>,
}

/// Overlay data for an active match. Displayed at bottom of stream.
#[derive(Clone, Debug, PartialEq, Eq)]
pub struct MatchOverlay {
    pub player_one: OverlayPlayer,
    pub player_two: OverlayPlayer,
    pub is_practice: bool,
}

/// A player as the overlay shows them.
#[derive(Clone, Debug, PartialEq, Eq)]
pub struct OverlayPlayer {
    pub name: String,
    pub rating: Option<String>,
    pub games_won: u8,
    pub race_to: u8,
}

/// How a rating is shown: `APA <level>` or `Fargo <rating>`.
pub open spec fn rating_text(r: Rating) -> Seq<char> {
    match r {
        Rating::Apa(v) => "APA "@ + decimal(v as nat),
        Rating::Fargo(v) => "Fargo "@ + decimal(v as nat),
    }
}

/// `op` shows the match player `p`: same name, score and race, and the
/// rating rendered as text.
pub open spec fn shows_player(op: OverlayPlayer, p: MatchPlayer) -> bool {
    &&& op.name@ == p.name@
    &&& op.games_won == p.games_won
    &&& op.race_to == p.race_to
    &&& opt_text(op.rating) == match p.rating {
        Some(r) => Some(rating_text(r)),
        None => None::<Seq<char>>,
    }
}

/// The text of a rating.
pub fn rating_string(r: &Rating) -> (s: String)
    ensures
        s@ == rating_text(*r),
{
    match r {
        Rating::Apa(v) => {
            let mut s = String::from_str("APA ");
            append_decimal(&mut s, *v);
            s
        },
        Rating::Fargo(v) => {
            let mut s = String::from_str("Fargo ");
            append_decimal(&mut s, *v);
            s
        },
    }
}

impl OverlayPlayer {
    /// The overlay view of a match player.
    pub fn from_match_player(p: &MatchPlayer) -> (r: Self)
        ensures
            shows_player(r, *p),
    {
        let rating = match &p.rating {
            Some(r) => Some(rating_string(r)),
            None => None,
        };
        OverlayPlayer {
            name: p.name.clone(),
            rating,
            games_won: p.games_won,
            race_to: p.race_to,
        }
    }
}

// ---------------------------------------------------------------------------
// Piece contents
// ---------------------------------------------------------------------------

/// The text written for a piece that shows nothing: one space.
pub open spec fn blank() -> Seq<char> {
    " "@
}

/// A player's rating as shown, empty when there is none.
pub open spec fn rating_shown(p: OverlayPlayer) -> Seq<char> {
    match p.rating {
        Some(r) => r@,
        None => Seq::empty(),
    }
}

/// The race as shown: one number when both players race to the same count,
/// else `<one>-<two>`.
pub open spec fn race_shown(p1: OverlayPlayer, p2: OverlayPlayer) -> Seq<char> {
    if p1.race_to == p2.race_to {
        decimal(p1.race_to as nat)
    } else {
        decimal(p1.race_to as nat) + "-"@ + decimal(p2.race_to as nat)
    }
}

/// An overlay can be shown: a practice rack number (games won plus one)
/// must fit the counter.
pub open spec fn renderable(o: Option<&MatchOverlay>) -> bool {
    match o {
        Some(m) => m.is_practice ==> m.player_one.games_won < 255,
        None => true,
    }
}

/// The text of each piece, in render order, for an overlay or for none.
pub open spec fn overlay_texts(o: Option<&MatchOverlay>) -> Seq<Seq<char>> {
    match o {
        Some(m) => if m.is_practice {
            seq![
                "Practice: "@ + m.player_one.name@,
                blank(),
                blank(),
                blank(),
                "Rack #"@ + decimal((m.player_one.games_won + 1) as nat),
                blank(),
                blank(),
                blank(),
            ]
        } else {
            seq![
                m.player_one.name@,
                rating_shown(m.player_one),
                m.player_two.name@,
                rating_shown(m.player_two),
                "race to"@,
                race_shown(m.player_one, m.player_two),
                decimal(m.player_one.games_won as nat),
                decimal(m.player_two.games_won as nat),
            ]
        },
        None => seq![blank(), blank(), blank(), blank(), blank(), blank(), blank(), blank()],
    }
}

fn blank_string() -> (s: String)
    ensures
        s@ == blank(),
{
    String::from_str(" ")
}

fn shown_rating_string(p: &OverlayPlayer) -> (s: String)
    ensures
        s@ == rating_shown(*p),
{
    match &p.rating {
        Some(r) => r.clone(),
        None => String::new(),
    }
}

fn race_string(p1: &OverlayPlayer, p2: &OverlayPlayer) -> (s: String)
    ensures
        s@ == race_shown(*p1, *p2),
{
    if p1.race_to == p2.race_to {
        decimal_string(p1.race_to as u32)
    } else {
        let mut s = decimal_string(p1.race_to as u32);
        s.append("-");
        append_decimal(&mut s, p2.race_to as u32);
        s
    }
}

/// The text of each piece, in render order.
pub fn overlay_piece_texts(overlay: Option<&MatchOverlay>) -> (r: Vec<String>)
    requires
        renderable(overlay),
    ensures
        r@.len() == 8,
        forall|i: int| 0 <= i < 8 ==> #[trigger] r@[i]@ == overlay_texts(overlay)[i],
{
    let mut r: Vec<String> = Vec::new();
    match overlay {
        Some(o) => {
            if o.is_practice {
                let mut s = String::from_str("Practice: ");
                s.append(o.player_one.name.as_str());
                r.push(s);
                r.push(blank_string());
                r.push(blank_string());
                r.push(blank_string());
                let mut rack = String::from_str("Rack #");
                append_decimal(&mut rack, o.player_one.games_won as u32 + 1);
                r.push(rack);
                r.push(blank_string());
                r.push(blank_string());
                r.push(blank_string());
            } else {
                r.push(o.player_one.name.clone());
                r.push(shown_rating_string(&o.player_one));
                r.push(o.player_two.name.clone());
                r.push(shown_rating_string(&o.player_two));
                r.push(String::from_str("race to"));
                r.push(race_string(&o.player_one, &o.player_two));
                r.push(decimal_string(o.player_one.games_won as u32));
                r.push(decimal_string(o.player_two.games_won as u32));
            }
        },
        None => {
            let mut k: usize = 0;
            while k < 8
                invariant
                    k <= 8,
                    r@.len() == k,
                    forall|i: int| 0 <= i < k ==> #[trigger] r@[i]@ == blank(),
                decreases 8 - k,
            {
                r.push(blank_string());
                k = k + 1;
            }
        },
    }
    r
}

// ---------------------------------------------------------------------------
// Rendering
// ---------------------------------------------------------------------------

/// One overlay text file to write: its path and its content.
#[derive(Clone, Debug)]
pub struct OverlayFile {
    pub path: OverlayPath,
    pub content: String,
}

/// The path and content of a file to write, as text.
pub open spec fn file_view(f: OverlayFile) -> (Seq<char>, Seq<char>) {
    (f.path@, f.content@)
}

/// The paths and contents of files to write, as text.
pub open spec fn files_view(fs: Seq<OverlayFile>) -> Seq<(Seq<char>, Seq<char>)> {
    fs.map_values(|f: OverlayFile| file_view(f))
}

/// The eight files that show `o` (or nothing) on a camera's stream, in render
/// order: piece `i` goes to that piece's path and holds that piece's text.
pub open spec fn rendered(camera: Seq<char>, o: Option<&MatchOverlay>) -> Seq<(Seq<char>, Seq<char>)> {
    Seq::new(8, |i: int| (overlay_path(camera, piece_names()[i]), overlay_texts(o)[i]))
}

/// Render overlay pieces: the eight text files (path and content) that show
/// the overlay, or blank them when there is none. FFmpeg draws each file with
/// `textfile=path:reload=1`.
pub fn render_overlay_pieces(camera_name: &str, overlay: Option<&MatchOverlay>) -> (r: Vec<
    OverlayFile,
>)
    requires
        renderable(overlay),
    ensures
        files_view(r@) == rendered(camera_name@, overlay),
{
    let texts = overlay_piece_texts(overlay);
    let mut r: Vec<OverlayFile> = Vec::new();
    let mut i: usize = 0;
    while i < 8
        invariant
            i <= 8,
            texts@.len() == 8,
            forall|k: int| 0 <= k < 8 ==> #[trigger] texts@[k]@ == overlay_texts(overlay)[k],
            r@.len() == i,
            files_view(r@) == rendered(camera_name@, overlay).take(i as int),
        decreases 8 - i,
    {
        let path = overlay_path_for_camera_piece(camera_name, piece_name(i));
        let content = texts[i].clone();
        r.push(OverlayFile { path, content });
        assert(file_view(r@[i as int]) == rendered(camera_name@, overlay)[i as int]);
        assert(files_view(r@) =~= rendered(camera_name@, overlay).take(i + 1));
        i = i + 1;
    }
    assert(rendered(camera_name@, overlay).take(8) =~= rendered(camera_name@, overlay));
    r
}

// ---------------------------------------------------------------------------
// Cameras and matches, as the overlay reads them
// ---------------------------------------------------------------------------

/// A camera, as the overlay logic reads it from the camera records.
#[derive(Clone, Debug)]
pub struct OverlayCamera {
    pub id: Option<String>,
    pub name: String,
    pub is_rtsp: bool,
}

/// A pool match record, as the overlay logic reads it: both players, whether
/// it is a practice match, and whether it has ended (has an end time).
#[derive(Clone, Debug)]
pub struct ActiveMatch {
    pub player_one: MatchPlayer,
    pub player_two: MatchPlayer,
    pub is_practice: bool,
    pub has_ended: bool,
}

/// `o` shows match `m`.
pub open spec fn shows_match(o: MatchOverlay, m: ActiveMatch) -> bool {
    &&& shows_player(o.player_one, m.player_one)
    &&& shows_player(o.player_two, m.player_two)
    &&& o.is_practice == m.is_practice
}

/// `o` is the overlay for the match lookup `m`: the match shown while it has
/// not ended, else no overlay.
pub open spec fn overlay_of_match(o: Option<MatchOverlay>, m: Option<ActiveMatch>) -> bool {
    match m {
        Some(am) => if am.has_ended {
            o is None
        } else {
            o matches Some(ov) && shows_match(ov, am)
        },
        None => o is None,
    }
}

/// A practice rack number (games won plus one) fits the counter.
pub open spec fn practice_fits(m: MatchOverlay) -> bool {
    m.is_practice ==> m.player_one.games_won < 255
}

/// The lookup's answer can be shown: an active (not ended) practice match's
/// rack number fits the counter. Ended matches are not shown.
pub open spec fn match_fits(m: Option<ActiveMatch>) -> bool {
    match m {
        Some(am) => !am.has_ended && am.is_practice ==> am.player_one.games_won < 255,
        None => true,
    }
}

/// The files that show an owned overlay (or nothing) on a camera.
pub open spec fn rendered_owned(camera: Seq<char>, o: Option<MatchOverlay>) -> Seq<(Seq<char>, Seq<char>)> {
    match o {
        Some(m) => rendered(camera, Some(&m)),
        None => rendered(camera, None),
    }
}

impl MatchOverlay {
    /// The overlay for a match lookup: the match while it has not ended.
    pub fn for_match(m: Option<ActiveMatch>) -> (r: Option<MatchOverlay>)
        ensures
            overlay_of_match(r, m),
    {
        match m {
            Some(am) => {
                if am.has_ended {
                    None
                } else {
                    Some(
                        MatchOverlay {
                            player_one: OverlayPlayer::from_match_player(&am.player_one),
                            player_two: OverlayPlayer::from_match_player(&am.player_two),
                            is_practice: am.is_practice,
                        },
                    )
                }
            },
            None => None,
        }
    }
}

/// What a camera's overlay becomes: the new shared overlay state and the
/// files to write, in that order.
#[derive(Debug)]
pub struct OverlayUpdate {
    pub overlay: Option<MatchOverlay>,
    pub files: Vec<OverlayFile>,
}

/// The camera exists and streams over RTSP (only those cameras carry an overlay).
pub open spec fn rtsp_camera(camera: Option<&OverlayCamera>) -> bool {
    match camera {
        Some(c) => c.is_rtsp,
        None => false,
    }
}

/// The camera, as a lookup answered it, exists and streams over RTSP.
pub open spec fn rtsp_owned(camera: Option<OverlayCamera>) -> bool {
    match camera {
        Some(c) => c.is_rtsp,
        None => false,
    }
}

/// The name of a camera that exists.
pub open spec fn camera_name(camera: Option<&OverlayCamera>) -> Seq<char> {
    match camera {
        Some(c) => c.name@,
        None => Seq::empty(),
    }
}

/// Update the overlay for the camera (called when a match is created or
/// updated). Nothing happens unless the camera exists and streams over RTSP.
/// The overlay is the one given, else the camera's active match, looked up
/// (once) only when none is given; the state takes it and the eight pieces
/// are rendered from it.
pub fn update_overlay<F: FnOnce() -> Option<ActiveMatch>>(
    camera: Option<&OverlayCamera>,
    overlay_from_match: Option<MatchOverlay>,
    find_active_match: F,
) -> (r: Option<OverlayUpdate>)
    requires
        rtsp_camera(camera) ==> (overlay_from_match matches Some(o) ==> practice_fits(o)),
        rtsp_camera(camera) && overlay_from_match is None ==> call_requires(find_active_match, ()),
        rtsp_camera(camera) && overlay_from_match is None ==> forall|m: Option<ActiveMatch>| #[trigger]
            call_ensures(find_active_match, (), m) ==> match_fits(m),
    ensures
        !rtsp_camera(camera) ==> r is None,
        rtsp_camera(camera) ==> r is Some,
        r matches Some(u) ==> {
            &&& overlay_from_match is Some ==> u.overlay == overlay_from_match
            &&& overlay_from_match is None ==> exists|m: Option<ActiveMatch>|
                #[trigger] call_ensures(find_active_match, (), m) && overlay_of_match(u.overlay, m)
            &&& files_view(u.files@) == rendered_owned(camera_name(camera), u.overlay)
        },
{
    let cam = match camera {
        Some(c) => c,
        None => return None,
    };
    if !cam.is_rtsp {
        return None;
    }
    let overlay = match overlay_from_match {
        Some(o) => Some(o),
        None => {
            let m = find_active_match();
            MatchOverlay::for_match(m)
        },
    };
    let files = match &overlay {
        Some(o) => render_overlay_pieces(cam.name.as_str(), Some(o)),
        None => render_overlay_pieces(cam.name.as_str(), None),
    };
    Some(OverlayUpdate { overlay, files })
}

/// Clearing applies: the camera exists, streams over RTSP, and shows an overlay.
pub open spec fn clear_applies(camera: Option<&OverlayCamera>, current: Option<&MatchOverlay>) -> bool {
    rtsp_camera(camera) && current is Some
}

/// Clear the overlay (e.g. when a match ends): when the camera exists, streams
/// over RTSP and an overlay is shown, the state becomes empty and every piece
/// is blanked; otherwise nothing happens.
pub fn clear_overlay(camera: Option<&OverlayCamera>, current: Option<&MatchOverlay>) -> (r: Option<
    OverlayUpdate,
>)
    ensures
        r is Some <==> clear_applies(camera, current),
        r matches Some(u) ==> u.overlay is None && files_view(u.files@) == rendered(
            camera_name(camera),
            None,
        ),
{
    let cam = match camera {
        Some(c) => c,
        None => return None,
    };
    if !cam.is_rtsp {
        return None;
    }
    if current.is_none() {
        return None;
    }
    let files = render_overlay_pieces(cam.name.as_str(), None);
    Some(OverlayUpdate { overlay: None, files })
}

/// The camera is one whose overlay a restore would show: it has an id and
/// streams over RTSP.
pub open spec fn restorable(c: OverlayCamera) -> bool {
    c.id is Some && c.is_rtsp
}

/// The lookup for camera `c` found no active match (or `c` is not one a
/// restore would show).
pub open spec fn passed_over<F: Fn(&String) -> bool>(f: F, c: OverlayCamera) -> bool {
    restorable(c) ==> call_ensures(f, (&c.id->0,), false)
}

/// Restore the overlay at server startup: the id of the first camera that has
/// an id, streams over RTSP and has an active match. The active-match lookup
/// is made for each camera with an id, in order, up to that camera.
pub fn restore_overlay_from_db<F: Fn(&String) -> bool>(
    cameras: &Vec<OverlayCamera>,
    has_active_match: F,
) -> (r: Option<String>)
    requires
        forall|id: &String| #[trigger] call_requires(has_active_match, (id,)),
    ensures
        r matches Some(id) ==> exists|i: int|
            0 <= i < cameras@.len() && #[trigger] restorable(cameras@[i]) && cameras@[i].id->0
                == id && call_ensures(has_active_match, (&id,), true) && forall|j: int|
                0 <= j < i ==> #[trigger] passed_over(has_active_match, cameras@[j]),
        r is None ==> forall|j: int|
            0 <= j < cameras@.len() ==> #[trigger] passed_over(has_active_match, cameras@[j]),
{
    let n = cameras.len();
    let mut i: usize = 0;
    while i < n
        invariant
            i <= n,
            n == cameras@.len(),
            forall|id: &String| #[trigger] call_requires(has_active_match, (id,)),
            forall|j: int| 0 <= j < i ==> #[trigger] passed_over(has_active_match, cameras@[j]),
        decreases n - i,
    {
        let camera = &cameras[i];
        match &camera.id {
            Some(id) => {
                let active = has_active_match(id);
                if camera.is_rtsp && active {
                    let found = id.clone();
                    assert(restorable(cameras@[i as int]));
                    return Some(found);
                }
                assert(passed_over(has_active_match, cameras@[i as int]));
            },
            None => {
                assert(passed_over(has_active_match, cameras@[i as int]));
            },
        }
        i = i + 1;
    }
    None
}

/// Restore the overlay at server startup: pick the camera as
/// `restore_overlay_from_db` does, then update its overlay as
/// `update_overlay` does with no overlay given: the camera (looked up again by
/// its id) must exist and stream over RTSP, and it shows the overlay of its
/// active match. `None` when no camera is picked or the picked camera is not
/// an RTSP camera; no other camera's files are written.
pub fn restore_overlay<
    F: Fn(&String) -> bool,
    G: FnOnce(&String) -> Option<OverlayCamera>,
    H: FnOnce(&String) -> Option<ActiveMatch>,
>(
    cameras: &Vec<OverlayCamera>,
    has_active_match: F,
    find_camera: G,
    find_active_match: H,
) -> (r: Option<OverlayUpdate>)
    requires
        forall|id: &String| #[trigger] call_requires(has_active_match, (id,)),
        forall|id: &String| #[trigger] call_requires(find_camera, (id,)),
        forall|id: &String| #[trigger] call_requires(find_active_match, (id,)),
        forall|id: &String, c: Option<OverlayCamera>, m: Option<ActiveMatch>|
            #[trigger] call_ensures(find_camera, (id,), c) && rtsp_owned(c)
                && #[trigger] call_ensures(find_active_match, (id,), m) ==> match_fits(m),
    ensures
        r matches Some(u) ==> exists|i: int, c: OverlayCamera, m: Option<ActiveMatch>|
            0 <= i < cameras@.len() && #[trigger] restorable(cameras@[i]) && call_ensures(
                has_active_match,
                (&cameras@[i].id->0,),
                true,
            ) && (forall|j: int|
                0 <= j < i ==> #[trigger] passed_over(has_active_match, cameras@[j]))
                && #[trigger] call_ensures(find_camera, (&cameras@[i].id->0,), Some(c)) && c.is_rtsp
                && #[trigger] call_ensures(find_active_match, (&cameras@[i].id->0,), m)
                && overlay_of_match(u.overlay, m) && files_view(u.files@) == rendered_owned(
                c.name@,
                u.overlay,
            ),
        r is None ==> (forall|j: int|
            0 <= j < cameras@.len() ==> #[trigger] passed_over(has_active_match, cameras@[j]))
            || exists|i: int, c: Option<OverlayCamera>|
            0 <= i < cameras@.len() && #[trigger] restorable(cameras@[i]) && call_ensures(
                has_active_match,
                (&cameras@[i].id->0,),
                true,
            ) && (forall|j: int|
                0 <= j < i ==> #[trigger] passed_over(has_active_match, cameras@[j]))
                && #[trigger] call_ensures(find_camera, (&cameras@[i].id->0,), c) && !rtsp_owned(c),
{
    let id = match restore_overlay_from_db(cameras, has_active_match) {
        Some(id) => id,
        None => return None,
    };
    let camera = find_camera(&id);
    let cam = match camera {
        Some(c) => c,
        None => return None,
    };
    if !cam.is_rtsp {
        return None;
    }
    let m = find_active_match(&id);
    let overlay = MatchOverlay::for_match(m);
    let files = match &overlay {
        Some(o) => render_overlay_pieces(cam.name.as_str(), Some(o)),
        None => render_overlay_pieces(cam.name.as_str(), None),
    };
    Some(OverlayUpdate { overlay, files })
}

/// The files a refresh writes, given the overlay `os[i]` shown on camera `i`:
/// the rendering of each RTSP camera's overlay, in camera order.
pub open spec fn refreshed(cameras: Seq<OverlayCamera>, os: Seq<Option<MatchOverlay>>) -> Seq<
    (Seq<char>, Seq<char>),
>
    decreases cameras.len(),
{
    if cameras.len() == 0 {
        Seq::empty()
    } else {
        refreshed(cameras.drop_last(), os.drop_last()) + if cameras.last().is_rtsp {
            rendered_owned(cameras.last().name@, os.last())
        } else {
            Seq::empty()
        }
    }
}

/// `o` is the overlay the database gives camera `c`: the overlay of the
/// camera's active match as the lookup answered it; none for a camera without
/// an id.
pub open spec fn db_overlay<F: Fn(&String) -> Option<ActiveMatch>>(
    find_active_match: F,
    c: OverlayCamera,
    o: Option<MatchOverlay>,
) -> bool {
    match c.id {
        Some(id) => exists|m: Option<ActiveMatch>| #[trigger]
            call_ensures(find_active_match, (&id,), m) && overlay_of_match(o, m),
        None => o is None,
    }
}

/// The refresh wrote `files`, showing on each RTSP camera the overlay its
/// active match in the database gives it.
pub open spec fn refresh_shows<F: Fn(&String) -> Option<ActiveMatch>>(
    find_active_match: F,
    cameras: Seq<OverlayCamera>,
    os: Seq<Option<MatchOverlay>>,
    files: Seq<(Seq<char>, Seq<char>)>,
) -> bool {
    &&& os.len() == cameras.len()
    &&& forall|i: int|
        0 <= i < cameras.len() && cameras[i].is_rtsp ==> #[trigger] db_overlay(
            find_active_match,
            cameras[i],
            os[i],
        )
    &&& files == refreshed(cameras, os)
}

/// The files the periodic refresh writes to keep every RTSP camera's overlay
/// in step with the database: each RTSP camera shows its own active match,
/// looked up (once) by its id; a camera without an id has no match, so its
/// pieces are blanked.
pub fn refresh_overlay_files<F: Fn(&String) -> Option<ActiveMatch>>(
    cameras: &Vec<OverlayCamera>,
    find_active_match: F,
) -> (r: Vec<OverlayFile>)
    requires
        forall|id: &String| #[trigger] call_requires(find_active_match, (id,)),
        forall|i: int, m: Option<ActiveMatch>|
            0 <= i < cameras@.len() && #[trigger] restorable(cameras@[i]) && #[trigger] call_ensures(
                find_active_match,
                (&cameras@[i].id->0,),
                m,
            ) ==> match_fits(m),
    ensures
        exists|os: Seq<Option<MatchOverlay>>| #[trigger]
            refresh_shows(find_active_match, cameras@, os, files_view(r@)),
{
    let n = cameras.len();
    let mut r: Vec<OverlayFile> = Vec::new();
    let ghost mut os: Seq<Option<MatchOverlay>> = Seq::empty();
    let mut i: usize = 0;
    while i < n
        invariant
            i <= n,
            n == cameras@.len(),
            forall|id: &String| #[trigger] call_requires(find_active_match, (id,)),
            forall|k: int, m: Option<ActiveMatch>|
                0 <= k < cameras@.len() && #[trigger] restorable(cameras@[k]) && #[trigger] call_ensures(
                    find_active_match,
                    (&cameras@[k].id->0,),
                    m,
                ) ==> match_fits(m),
            os.len() == i,
            forall|k: int|
                0 <= k < i && cameras@[k].is_rtsp ==> #[trigger] db_overlay(
                    find_active_match,
                    cameras@[k],
                    os[k],
                ),
            files_view(r@) == refreshed(cameras@.take(i as int), os),
        decreases n - i,
    {
        let camera = &cameras[i];
        let ghost before = r@;
        let ghost old_os = os;
        if camera.is_rtsp {
            let overlay = match &camera.id {
                Some(id) => {
                    let m = find_active_match(id);
                    assert(restorable(cameras@[i as int]));
                    MatchOverlay::for_match(m)
                },
                None => None,
            };
            let mut files = match &overlay {
                Some(o) => render_overlay_pieces(camera.name.as_str(), Some(o)),
                None => render_overlay_pieces(camera.name.as_str(), None),
            };
            r.append(&mut files);
            proof {
                os = old_os.push(overlay);
            }
            assert(db_overlay(find_active_match, cameras@[i as int], os[i as int]));
            assert(files_view(r@) =~= files_view(before) + rendered_owned(
                cameras@[i as int].name@,
                overlay,
            ));
        } else {
            proof {
                os = old_os.push(None);
            }
        }
        assert(cameras@.take(i + 1).drop_last() =~= cameras@.take(i as int));
        assert(os.drop_last() =~= old_os);
        assert forall|k: int|
            0 <= k < i + 1 && cameras@[k].is_rtsp implies #[trigger] db_overlay(
            find_active_match,
            cameras@[k],
            os[k],
        ) by {
            if k < i {
                assert(os[k] == old_os[k]);
            }
        }
        assert(files_view(r@) =~= refreshed(cameras@.take(i + 1), os));
        i = i + 1;
    }
    assert(cameras@.take(n as int) =~= cameras@);
    assert(refresh_shows(find_active_match, cameras@, os, files_view(r@)));
    r
}

// ---------------------------------------------------------------------------
// Resolving the overlay paths for FFmpeg
// ---------------------------------------------------------------------------

/// Resolved overlay paths for FFmpeg. All paths must exist before use.
#[derive(Clone, Debug)]
pub struct OverlayPaths {
    pub p1name: String,
    pub p1rating: String,
    pub p2name: String,
    pub p2rating: String,
    pub raceto: String,
    pub raceto2: String,
    pub score1: String,
    pub score2: String,
}

/// The resolved path of piece `k` (in render order).
pub open spec fn resolved_piece(p: OverlayPaths, k: int) -> String {
    if k == 0 {
        p.p1name
    } else if k == 1 {
        p.p1rating
    } else if k == 2 {
        p.p2name
    } else if k == 3 {
        p.p2rating
    } else if k == 4 {
        p.raceto
    } else if k == 5 {
        p.raceto2
    } else if k == 6 {
        p.score1
    } else {
        p.score2
    }
}

/// A call of `resolve` on the path with text `path` gave `result`.
pub open spec fn resolved_as<F: Fn(&OverlayPath) -> Result<String, String>>(
    resolve: F,
    path: Seq<char>,
    result: Result<String, String>,
) -> bool {
    exists|p: OverlayPath| p@ == path && #[trigger] call_ensures(resolve, (&p,), result)
}

/// Some call of `resolve` on the path with text `path` succeeded.
pub open spec fn resolves<F: Fn(&OverlayPath) -> Result<String, String>>(
    resolve: F,
    path: Seq<char>,
) -> bool {
    exists|s: String| #[trigger] resolved_as(resolve, path, Ok(s))
}

/// Resolve all overlay paths for a camera, piece by piece in render order,
/// with the given resolver (which fails when a file does not exist). The first
/// failure is returned and no later piece is resolved.
pub fn resolve_overlay_paths_for_camera<F: Fn(&OverlayPath) -> Result<String, String>>(
    camera_name: &str,
    resolve_overlay_path: F,
) -> (r: Result<OverlayPaths, String>)
    requires
        forall|p: &OverlayPath| #[trigger] call_requires(resolve_overlay_path, (p,)),
    ensures
        r matches Ok(paths) ==> forall|k: int|
            0 <= k < 8 ==> #[trigger] resolved_as(
                resolve_overlay_path,
                overlay_path(camera_name@, piece_names()[k]),
                Ok(resolved_piece(paths, k)),
            ),
        r matches Ok(paths) ==> {
            &&& resolved_as(resolve_overlay_path, overlay_path(camera_name@, "p1name"@), Ok(paths.p1name))
            &&& resolved_as(resolve_overlay_path, overlay_path(camera_name@, "p1rating"@), Ok(paths.p1rating))
            &&& resolved_as(resolve_overlay_path, overlay_path(camera_name@, "p2name"@), Ok(paths.p2name))
            &&& resolved_as(resolve_overlay_path, overlay_path(camera_name@, "p2rating"@), Ok(paths.p2rating))
            &&& resolved_as(resolve_overlay_path, overlay_path(camera_name@, "raceto"@), Ok(paths.raceto))
            &&& resolved_as(resolve_overlay_path, overlay_path(camera_name@, "raceto2"@), Ok(paths.raceto2))
            &&& resolved_as(resolve_overlay_path, overlay_path(camera_name@, "score1"@), Ok(paths.score1))
            &&& resolved_as(resolve_overlay_path, overlay_path(camera_name@, "score2"@), Ok(paths.score2))
        },
        r is Err ==> exists|k: int|
            0 <= k < 8 && #[trigger] resolved_as(
                resolve_overlay_path,
                overlay_path(camera_name@, piece_names()[k]),
                Err(r->Err_0),
            ) && forall|j: int|
                0 <= j < k ==> #[trigger] resolves(
                    resolve_overlay_path,
                    overlay_path(camera_name@, piece_names()[j]),
                ),
{
    let mut found: Vec<String> = Vec::new();
    let mut failure: Option<String> = None;
    let mut k: usize = 0;
    while k < 8 && failure.is_none()
        invariant
            k <= 8,
            found@.len() == k,
            forall|p: &OverlayPath| #[trigger] call_requires(resolve_overlay_path, (p,)),
            forall|j: int|
                0 <= j < k ==> #[trigger] resolved_as(
                    resolve_overlay_path,
                    overlay_path(camera_name@, piece_names()[j]),
                    Ok(found@[j]),
                ),
            failure matches Some(e) ==> k < 8 && resolved_as(
                resolve_overlay_path,
                overlay_path(camera_name@, piece_names()[k as int]),
                Err(e),
            ),
        decreases 8 - k + (if failure is None { 1int } else { 0int }),
    {
        let path = overlay_path_for_camera_piece(camera_name, piece_name(k));
        let result = resolve_overlay_path(&path);
        assert(resolved_as(
            resolve_overlay_path,
            overlay_path(camera_name@, piece_names()[k as int]),
            result,
        ));
        match result {
            Ok(p) => {
                found.push(p);
                k = k + 1;
            },
            Err(e) => {
                failure = Some(e);
            },
        }
    }
    if let Some(e) = failure {
        assert forall|j: int| 0 <= j < k implies #[trigger] resolves(
            resolve_overlay_path,
            overlay_path(camera_name@, piece_names()[j]),
        ) by {
            assert(resolved_as(
                resolve_overlay_path,
                overlay_path(camera_name@, piece_names()[j]),
                Ok(found@[j]),
            ));
        }
        let r: Result<OverlayPaths, String> = Err(e);
        assert(resolved_as(
            resolve_overlay_path,
            overlay_path(camera_name@, piece_names()[k as int]),
            Err(r->Err_0),
        ));
        return r;
    }
    let paths = OverlayPaths {
        p1name: found[0].clone(),
        p1rating: found[1].clone(),
        p2name: found[2].clone(),
        p2rating: found[3].clone(),
        raceto: found[4].clone(),
        raceto2: found[5].clone(),
        score1: found[6].clone(),
        score2: found[7].clone(),
    };
    assert forall|k: int| 0 <= k < 8 implies #[trigger] resolved_as(
        resolve_overlay_path,
        overlay_path(camera_name@, piece_names()[k]),
        Ok(resolved_piece(paths, k)),
    ) by {
        assert(resolved_piece(paths, k) == found@[k]);
        assert(resolved_as(
            resolve_overlay_path,
            overlay_path(camera_name@, piece_names()[k]),
            Ok(found@[k]),
        ));
    }
    assert(resolved_as(resolve_overlay_path, overlay_path(camera_name@, piece_names()[0]), Ok(found@[0])));
    assert(resolved_as(resolve_overlay_path, overlay_path(camera_name@, piece_names()[1]), Ok(found@[1])));
    assert(resolved_as(resolve_overlay_path, overlay_path(camera_name@, piece_names()[2]), Ok(found@[2])));
    assert(resolved_as(resolve_overlay_path, overlay_path(camera_name@, piece_names()[3]), Ok(found@[3])));
    assert(resolved_as(resolve_overlay_path, overlay_path(camera_name@, piece_names()[4]), Ok(found@[4])));
    assert(resolved_as(resolve_overlay_path, overlay_path(camera_name@, piece_names()[5]), Ok(found@[5])));
    assert(resolved_as(resolve_overlay_path, overlay_path(camera_name@, piece_names()[6]), Ok(found@[6])));
    assert(resolved_as(resolve_overlay_path, overlay_path(camera_name@, piece_names()[7]), Ok(found@[7])));
    Ok(paths)
}

// ---------------------------------------------------------------------------
// Laws
// ---------------------------------------------------------------------------

/// Every character of a camera's overlay file name is alphanumeric, `-` or
/// `_`, and the name is never empty.
pub proof fn lemma_overlay_name_is_safe(camera: Seq<char>)
    ensures
        overlay_name(camera).len() > 0,
        forall|i: int|
            0 <= i < overlay_name(camera).len() ==> #[trigger] kept_in_file_name(
                overlay_name(camera)[i],
            ),
{
    if camera.len() == 0 {
        assert forall|i: int|
            0 <= i < overlay_name(camera).len() implies #[trigger] kept_in_file_name(
            overlay_name(camera)[i],
        ) by {
            assert(ascii_alphanumeric(overlay_name(camera)[i]));
        }
    }
}

/// Sanitizing a camera name twice gives the same name as sanitizing it once.
pub proof fn lemma_overlay_name_idempotent(camera: Seq<char>)
    ensures
        overlay_name(overlay_name(camera)) == overlay_name(camera),
{
    let once = overlay_name(camera);
    lemma_overlay_name_is_safe(camera);
    assert forall|i: int| 0 <= i < once.len() implies #[trigger] sanitized_char(once[i])
        == once[i] by {
        assert(kept_in_file_name(once[i]));
    }
    assert(overlay_name(once) =~= once);
}

/// Different pieces of one camera are kept in different files.
pub proof fn lemma_overlay_paths_differ(camera: Seq<char>, p: Seq<char>, q: Seq<char>)
    requires
        p != q,
    ensures
        overlay_path(camera, p) != overlay_path(camera, q),
{
    let a = "data/"@ + "rtmp-overlay-"@ + overlay_name(camera) + "-"@;
    let t = ".txt"@;
    assert(overlay_path(camera, p) =~= a + p + t);
    assert(overlay_path(camera, q) =~= a + q + t);
    if overlay_path(camera, p) == overlay_path(camera, q) {
        assert(p.len() == q.len());
        assert forall|i: int| 0 <= i < p.len() implies p[i] == q[i] by {
            assert((a + p + t)[a.len() + i] == p[i]);
            assert((a + q + t)[a.len() + i] == q[i]);
        }
        assert(p =~= q);
    }
}

/// The eight pieces have eight different names.
pub proof fn lemma_piece_names_distinct()
    ensures
        forall|i: int, j: int|
            0 <= i < 8 && 0 <= j < 8 && i != j ==> piece_names()[i] != piece_names()[j],
{
    reveal_strlit("p1name");
    reveal_strlit("p1rating");
    reveal_strlit("p2name");
    reveal_strlit("p2rating");
    reveal_strlit("raceto");
    reveal_strlit("raceto2");
    reveal_strlit("score1");
    reveal_strlit("score2");
    assert forall|i: int, j: int|
        0 <= i < 8 && 0 <= j < 8 && i != j implies piece_names()[i] != piece_names()[j] by {
        if piece_names()[i] == piece_names()[j] {
            assert(piece_names()[i].len() == piece_names()[j].len());
            assert(piece_names()[i][0] == piece_names()[j][0]);
            assert(piece_names()[i][1] == piece_names()[j][1]);
            assert(piece_names()[i][5] == piece_names()[j][5]);
        }
    }
}

/// A render writes each of the eight pieces to a file of its own.
pub proof fn lemma_rendered_files_distinct(camera: Seq<char>, o: Option<&MatchOverlay>)
    ensures
        rendered(camera, o).len() == 8,
        forall|i: int, j: int|
            0 <= i < 8 && 0 <= j < 8 && i != j ==> rendered(camera, o)[i].0 != rendered(
                camera,
                o,
            )[j].0,
{
    lemma_piece_names_distinct();
    assert forall|i: int, j: int|
        0 <= i < 8 && 0 <= j < 8 && i != j implies rendered(camera, o)[i].0 != rendered(
        camera,
        o,
    )[j].0 by {
        lemma_overlay_paths_differ(camera, piece_names()[i], piece_names()[j]);
    }
}

/// Showing no overlay (as a clear does) writes a single space to every piece.
pub proof fn lemma_no_overlay_blanks_every_piece(camera: Seq<char>)
    ensures
        forall|i: int| 0 <= i < 8 ==> #[trigger] rendered(camera, None)[i].1 == blank(),
        forall|i: int| 0 <= i < 8 ==> #[trigger] rendered(camera, None)[i].1 == " "@,
{
}

/// A league match shows, file by file: player one's name and rating, player
/// two's name and rating (a missing rating as empty text), the label
/// `race to`, the race, and each player's games won. The race is a single
/// number when both players race to the same count; when the counts differ it
/// is player one's count, `-`, and player two's count.
pub proof fn lemma_match_pieces(camera: Seq<char>, m: MatchOverlay)
    requires
        !m.is_practice,
    ensures
        ({
            let r = rendered(camera, Some(&m));
            let p1 = m.player_one;
            let p2 = m.player_two;
            &&& r.len() == 8
            &&& r[0] == (overlay_path(camera, "p1name"@), p1.name@)
            &&& r[1].0 == overlay_path(camera, "p1rating"@)
            &&& p1.rating matches Some(t) ==> r[1].1 == t@
            &&& p1.rating is None ==> r[1].1.len() == 0
            &&& r[2] == (overlay_path(camera, "p2name"@), p2.name@)
            &&& r[3].0 == overlay_path(camera, "p2rating"@)
            &&& p2.rating matches Some(t) ==> r[3].1 == t@
            &&& p2.rating is None ==> r[3].1.len() == 0
            &&& r[4] == (overlay_path(camera, "raceto"@), "race to"@)
            &&& r[5].0 == overlay_path(camera, "raceto2"@)
            &&& p1.race_to == p2.race_to ==> r[5].1 == decimal(p1.race_to as nat)
            &&& p1.race_to != p2.race_to ==> r[5].1 == decimal(p1.race_to as nat) + "-"@
                + decimal(p2.race_to as nat)
            &&& r[6] == (overlay_path(camera, "score1"@), decimal(p1.games_won as nat))
            &&& r[7] == (overlay_path(camera, "score2"@), decimal(p2.games_won as nat))
        }),
{
}

/// A practice session shows `Practice: ` and the player's name in the first
/// file, `Rack #` and the rack number (games won plus one) in the `raceto`
/// file, and a single space in the six others.
pub proof fn lemma_practice_pieces(camera: Seq<char>, m: MatchOverlay)
    requires
        m.is_practice,
    ensures
        ({
            let r = rendered(camera, Some(&m));
            &&& r.len() == 8
            &&& r[0] == (overlay_path(camera, "p1name"@), "Practice: "@ + m.player_one.name@)
            &&& r[1] == (overlay_path(camera, "p1rating"@), " "@)
            &&& r[2] == (overlay_path(camera, "p2name"@), " "@)
            &&& r[3] == (overlay_path(camera, "p2rating"@), " "@)
            &&& r[4] == (overlay_path(camera, "raceto"@), "Rack #"@ + decimal(
                (m.player_one.games_won + 1) as nat,
            ))
            &&& r[5] == (overlay_path(camera, "raceto2"@), " "@)
            &&& r[6] == (overlay_path(camera, "score1"@), " "@)
            &&& r[7] == (overlay_path(camera, "score2"@), " "@)
        }),
{
}

/// A clear leaves no overlay, so clearing again changes nothing.
pub proof fn lemma_clear_twice_is_clear_once(camera: Option<&OverlayCamera>)
    ensures
        !clear_applies(camera, None),
{
}

} // verus!
