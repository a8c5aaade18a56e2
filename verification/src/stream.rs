//! RTSP preview streams: the FFmpeg command that reads a camera's RTSP
//! stream, draws the overlay on it and writes MJPEG frames.
use vstd::prelude::*;

use crate::text::texts;

verus! {

/// The FFmpeg arguments of an RTSP preview: overwrite outputs, the RTSP input,
/// the overlay image looped at 30 frames a second, the overlay filter graph,
/// and MJPEG at quality 5 on standard output.
pub open spec fn preview_args(input: Seq<Seq<char>>, overlay_path: Seq<char>, filter: Seq<char>) -> Seq<
    Seq<char>,
> {
    seq!["-y"@] + input + seq![
        "-f"@,
        "image2"@,
        "-loop"@,
        "1"@,
        "-r"@,
        "30"@,
        "-i"@,
        overlay_path,
        "-filter_complex"@,
        filter,
        "-map"@,
        "[out]"@,
        "-f"@,
        "mjpeg"@,
        "-q:v"@,
        "5"@,
        "-"@,
    ]
}

fn push_str(v: &mut Vec<String>, s: &str)
    ensures
        final(v)@.len() == old(v)@.len() + 1,
        texts(final(v)@) == texts(old(v)@).push(s@),
{
    let ghost before = v@;
    v.push(String::from_str(s));
    assert(texts(v@) =~= texts(before).push(s@));
}

/// The FFmpeg arguments that read a camera's RTSP stream (`rtsp_input_args`),
/// apply the overlay and write MJPEG to standard output.
pub fn rtsp_preview_ffmpeg_args(rtsp_input_args: Vec<String>, overlay_path: String, filter: String) -> (r:
    Vec<String>)
    ensures
        texts(r@) == preview_args(texts(rtsp_input_args@), overlay_path@, filter@),
{
    let mut args: Vec<String> = Vec::new();
    assert(texts(args@) =~= Seq::<Seq<char>>::empty());
    push_str(&mut args, "-y");
    let mut input = rtsp_input_args;
    let ghost input_seq = input@;
    let ghost input_texts = texts(input@);
    let ghost before = args@;
    args.append(&mut input);
    assert(args@ =~= before + input_seq);
    assert(texts(args@) =~= seq!["-y"@] + input_texts);
    push_str(&mut args, "-f");
    push_str(&mut args, "image2");
    push_str(&mut args, "-loop");
    push_str(&mut args, "1");
    push_str(&mut args, "-r");
    push_str(&mut args, "30");
    push_str(&mut args, "-i");
    push_str(&mut args, overlay_path.as_str());
    push_str(&mut args, "-filter_complex");
    push_str(&mut args, filter.as_str());
    push_str(&mut args, "-map");
    push_str(&mut args, "[out]");
    push_str(&mut args, "-f");
    push_str(&mut args, "mjpeg");
    push_str(&mut args, "-q:v");
    push_str(&mut args, "5");
    push_str(&mut args, "-");
    assert(texts(args@) =~= preview_args(input_texts, overlay_path@, filter@));
    args
}

// ---------------------------------------------------------------------------
// The registry of running preview streams
// ---------------------------------------------------------------------------

/// The map that a list of (camera id, stream) entries stands for; a later
/// entry for an id takes the place of an earlier one.
pub open spec fn entries_map<S>(es: Seq<(String, S)>) -> Map<Seq<char>, S>
    decreases es.len(),
{
    if es.len() == 0 {
        Map::empty()
    } else {
        entries_map(es.drop_last()).insert(es.last().0@, es.last().1)
    }
}

/// No camera id occurs twice.
pub open spec fn ids_unique<S>(es: Seq<(String, S)>) -> bool {
    forall|i: int, j: int| 0 <= i < j < es.len() ==> #[trigger] es[i].0@ != #[trigger] es[j].0@
}

proof fn lemma_entries_map_dom<S>(es: Seq<(String, S)>, k: Seq<char>)
    ensures
        entries_map(es).dom().contains(k) <==> exists|i: int| 0 <= i < es.len() && #[trigger] es[i].0@ == k,
    decreases es.len(),
{
    if es.len() > 0 {
        lemma_entries_map_dom(es.drop_last(), k);
        if entries_map(es).dom().contains(k) && es.last().0@ != k {
            let i = choose|i: int| 0 <= i < es.drop_last().len() && #[trigger] es.drop_last()[i].0@ == k;
            assert(es[i].0@ == k);
        }
        if exists|i: int| 0 <= i < es.len() && #[trigger] es[i].0@ == k {
            let i = choose|i: int| 0 <= i < es.len() && #[trigger] es[i].0@ == k;
            if i < es.len() - 1 {
                assert(es.drop_last()[i].0@ == k);
            }
        }
    }
}

proof fn lemma_entries_map_value<S>(es: Seq<(String, S)>, i: int)
    requires
        ids_unique(es),
        0 <= i < es.len(),
    ensures
        entries_map(es).dom().contains(es[i].0@),
        entries_map(es)[es[i].0@] == es[i].1,
    decreases es.len(),
{
    if i < es.len() - 1 {
        assert(ids_unique(es.drop_last()));
        lemma_entries_map_value(es.drop_last(), i);
        assert(es[i].0@ != es[es.len() - 1].0@);
    }
}

proof fn lemma_entries_map_remove<S>(es: Seq<(String, S)>, i: int)
    requires
        ids_unique(es),
        0 <= i < es.len(),
    ensures
        entries_map(es.remove(i)) == entries_map(es).remove(es[i].0@),
        ids_unique(es.remove(i)),
    decreases es.len(),
{
    let k = es[i].0@;
    let rest = es.drop_last();
    assert(ids_unique(rest));
    if i == es.len() - 1 {
        assert(es.remove(i) =~= rest);
        if entries_map(rest).dom().contains(k) {
            lemma_entries_map_dom(rest, k);
            let j = choose|j: int| 0 <= j < rest.len() && #[trigger] rest[j].0@ == k;
            assert(es[j].0@ == es[i].0@);
        }
        assert(entries_map(es.remove(i)) =~= entries_map(es).remove(k));
    } else {
        lemma_entries_map_remove(rest, i);
        let removed = es.remove(i);
        assert(removed =~= rest.remove(i).push(es.last()));
        assert(removed.drop_last() =~= rest.remove(i));
        assert(removed.last() == es.last());
        assert(es.last().0@ != k);
        assert(entries_map(removed) == entries_map(rest.remove(i)).insert(es.last().0@, es.last().1));
        assert(entries_map(es) == entries_map(rest).insert(es.last().0@, es.last().1));
        assert(entries_map(removed) =~= entries_map(es).remove(k));
    }
    assert forall|a: int, b: int|
        0 <= a < b < es.remove(i).len() implies #[trigger] es.remove(i)[a].0@ != #[trigger] es.remove(
        i,
    )[b].0@ by {
        let a2 = if a < i { a } else { a + 1 };
        let b2 = if b < i { b } else { b + 1 };
        assert(es.remove(i)[a] == es[a2]);
        assert(es.remove(i)[b] == es[b2]);
    }
}

/// The running preview streams, by camera id: a list of entries in which no
/// id occurs twice, read as a map (`view`). A list is used because a hash map
/// keyed by `String` gives no facts about its contents to reason with here,
/// while this one's lookups, inserts and removals are proved against the map.
pub struct StreamRegistry<S> {
    entries: Vec<(String, S)>,
}

impl<S> View for StreamRegistry<S> {
    type V = Map<Seq<char>, S>;

    closed spec fn view(&self) -> Map<Seq<char>, S> {
        entries_map(self.entries@)
    }
}

impl<S> StreamRegistry<S> {
    /// The registry is well formed: no camera id occurs twice.
    pub closed spec fn wf(&self) -> bool {
        ids_unique(self.entries@)
    }

    /// An empty registry.
    pub fn new() -> (r: Self)
        ensures
            r.wf(),
            r@ == Map::<Seq<char>, S>::empty(),
    {
        StreamRegistry { entries: Vec::new() }
    }

    fn position(&self, camera_id: &str) -> (r: Option<usize>)
        requires
            self.wf(),
        ensures
            r matches Some(i) ==> i < self.entries@.len() && self.entries@[i as int].0@ == camera_id@,
            r is None ==> forall|i: int|
                0 <= i < self.entries@.len() ==> #[trigger] self.entries@[i].0@ != camera_id@,
    {
        let n = self.entries.len();
        let mut i: usize = 0;
        while i < n
            invariant
                i <= n,
                n == self.entries@.len(),
                forall|j: int| 0 <= j < i ==> #[trigger] self.entries@[j].0@ != camera_id@,
            decreases n - i,
        {
            if crate::text::str_eq(self.entries[i].0.as_str(), camera_id) {
                return Some(i);
            }
            i = i + 1;
        }
        None
    }

    /// The stream running for the camera, if any.
    pub fn get(&self, camera_id: &str) -> (r: Option<&S>)
        requires
            self.wf(),
        ensures
            r is Some <==> self@.dom().contains(camera_id@),
            r matches Some(s) ==> *s == self@[camera_id@],
    {
        proof {
            lemma_entries_map_dom(self.entries@, camera_id@);
        }
        match self.position(camera_id) {
            Some(i) => {
                proof {
                    lemma_entries_map_value(self.entries@, i as int);
                }
                Some(&self.entries[i].1)
            },
            None => None,
        }
    }

    /// Forget the stream of the camera (when its FFmpeg process exits), and
    /// hand it back if there was one.
    pub fn remove(&mut self, camera_id: &str) -> (r: Option<S>)
        requires
            old(self).wf(),
        ensures
            final(self).wf(),
            final(self)@ == old(self)@.remove(camera_id@),
            r is Some <==> old(self)@.dom().contains(camera_id@),
            r matches Some(s) ==> s == old(self)@[camera_id@],
    {
        proof {
            lemma_entries_map_dom(self.entries@, camera_id@);
        }
        match self.position(camera_id) {
            Some(i) => {
                proof {
                    lemma_entries_map_value(self.entries@, i as int);
                    lemma_entries_map_remove(self.entries@, i as int);
                }
                let (_, s) = self.entries.remove(i);
                Some(s)
            },
            None => {
                assert(entries_map(self.entries@).remove(camera_id@) =~= entries_map(self.entries@));
                None
            },
        }
    }

    /// Register the stream of a camera, in place of any it had.
    pub fn insert(&mut self, camera_id: String, stream: S)
        requires
            old(self).wf(),
        ensures
            final(self).wf(),
            final(self)@ == old(self)@.insert(camera_id@, stream),
    {
        let _ = self.remove(camera_id.as_str());
        let ghost before = self.entries@;
        proof {
            lemma_entries_map_dom(before, camera_id@);
        }
        let ghost id = camera_id@;
        self.entries.push((camera_id, stream));
        assert(self.entries@.drop_last() =~= before);
        assert forall|i: int, j: int|
            0 <= i < j < self.entries@.len() implies #[trigger] self.entries@[i].0@
            != #[trigger] self.entries@[j].0@ by {
            if j == self.entries@.len() - 1 {
                assert(before[i].0@ != id);
            } else {
                assert(before[i].0@ != before[j].0@);
            }
        }
    }
}

} // verus!
