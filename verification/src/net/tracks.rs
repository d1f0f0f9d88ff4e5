//! The track catalogue of an instance: the track folders on the host and
//! the `ui_track.json` and `preview.png` files of each layout in their
//! `ui` folders, merged into one list sorted by name.
use vstd::prelude::*;
use crate::net::catalog::{
    archive_files, archive_listing, archive_views, copy_bytes, is_ui_path, json_doc_name, json_name,
    json_text_of, kv_get, kv_set, lemma_first_index, lemma_no_index, keys_of, opt_or_empty,
    opt_string_view, path_parts, path_parts_of, png_data_uri, png_data_uri_of, ui_json_text,
    ArchiveFile,
};
use crate::net::{directory_list, parse_directory_list};
use crate::order::{is_stable_sort, sorted_order, stably_sorted};
use crate::text::{
    append_str, chars_eq, chars_to_string, copy_chars, join, join_chars, lemma_views_push, str_chars,
    string_views, views,
};

verus! {

// ------------------------------------------------------------------
// Commands
// ------------------------------------------------------------------

/// The folder of the tracks of instance `id`.
pub open spec fn tracks_dir(id: Seq<char>) -> Seq<char> {
    "$HOME/ac-manager/instances/"@ + id + "/ac_files/content/tracks"@
}

/// The command that lists the track folders of instance `id`.
pub fn track_dirs_command(id: &str) -> (r: String)
    ensures
        r@ == "cd "@ + tracks_dir(id@) + " && find . -maxdepth 1 -mindepth 1 -type d"@,
{
    let mut s = String::new();
    append_str(&mut s, "cd $HOME/ac-manager/instances/");
    append_str(&mut s, id);
    append_str(&mut s, "/ac_files/content/tracks && find . -maxdepth 1 -mindepth 1 -type d");
    proof {
        reveal_strlit("cd $HOME/ac-manager/instances/");
        reveal_strlit("/ac_files/content/tracks && find . -maxdepth 1 -mindepth 1 -type d");
        reveal_strlit("cd ");
        reveal_strlit("$HOME/ac-manager/instances/");
        reveal_strlit("/ac_files/content/tracks");
        reveal_strlit(" && find . -maxdepth 1 -mindepth 1 -type d");
    }
    assert(s@ =~= "cd "@ + tracks_dir(id@) + " && find . -maxdepth 1 -mindepth 1 -type d"@);
    s
}

/// The command that prints, as base64, a gzip-compressed tar archive of
/// the `ui_track.json` and `preview.png` files of the tracks of instance
/// `id`.
pub fn track_archive_command(id: &str) -> (r: String)
    ensures
        r@ == "cd "@ + tracks_dir(id@)
            + " && find . -path '*/ui/*' -type f \\( -name 'ui_track.json' -o -name 'preview.png' \\) | tar czf - -T - | base64 -w 0"@,
{
    let mut s = String::new();
    append_str(&mut s, "cd $HOME/ac-manager/instances/");
    append_str(&mut s, id);
    append_str(
        &mut s,
        "/ac_files/content/tracks && find . -path '*/ui/*' -type f \\( -name 'ui_track.json' -o -name 'preview.png' \\) | tar czf - -T - | base64 -w 0",
    );
    proof {
        reveal_strlit("cd $HOME/ac-manager/instances/");
        reveal_strlit(
            "/ac_files/content/tracks && find . -path '*/ui/*' -type f \\( -name 'ui_track.json' -o -name 'preview.png' \\) | tar czf - -T - | base64 -w 0",
        );
        reveal_strlit("cd ");
        reveal_strlit("$HOME/ac-manager/instances/");
        reveal_strlit("/ac_files/content/tracks");
        reveal_strlit(
            " && find . -path '*/ui/*' -type f \\( -name 'ui_track.json' -o -name 'preview.png' \\) | tar czf - -T - | base64 -w 0",
        );
    }
    assert(s@ =~= "cd "@ + tracks_dir(id@)
        + " && find . -path '*/ui/*' -type f \\( -name 'ui_track.json' -o -name 'preview.png' \\) | tar czf - -T - | base64 -w 0"@);
    s
}

/// The folder of track `folder` of instance `id`, which deleting the
/// track removes.
pub fn track_folder_path(id: &str, folder: &str) -> (r: String)
    ensures
        r@ == tracks_dir(id@) + "/"@ + folder@,
{
    let mut s = String::new();
    append_str(&mut s, "$HOME/ac-manager/instances/");
    append_str(&mut s, id);
    append_str(&mut s, "/ac_files/content/tracks/");
    append_str(&mut s, folder);
    proof {
        reveal_strlit("$HOME/ac-manager/instances/");
        reveal_strlit("/ac_files/content/tracks/");
        reveal_strlit("/ac_files/content/tracks");
        reveal_strlit("/");
    }
    assert(s@ =~= tracks_dir(id@) + "/"@ + folder@);
    s
}

// ------------------------------------------------------------------
// Files of the archive, by track folder and layout
// ------------------------------------------------------------------

/// The layout of a `ui` file with the path components `parts`: the
/// folders between `ui` and the file, joined by `/`; empty for a file
/// directly in `ui`.
pub open spec fn layout_of(parts: Seq<Seq<char>>) -> Seq<char> {
    if parts.len() <= 3 {
        Seq::empty()
    } else {
        join(parts.subrange(2, parts.len() - 1), "/"@)
    }
}

/// The files named `name` in the `ui` folders of the archive `files`,
/// by track folder and layout: for each, the bytes of its last such file
/// that could be read, in the order in which they first have one.
pub open spec fn track_file_map(files: Seq<(Seq<char>, Option<Seq<u8>>)>, name: Seq<char>) -> Seq<
    ((Seq<char>, Seq<char>), Seq<u8>),
>
    decreases files.len(),
{
    if files.len() == 0 {
        Seq::empty()
    } else {
        let prev = track_file_map(files.drop_last(), name);
        let f = files.last();
        let parts = path_parts(f.0);
        if is_ui_path(parts) && parts.last() == name && f.1 is Some {
            kv_set(prev, (parts[0], layout_of(parts)), f.1->0)
        } else {
            prev
        }
    }
}

pub open spec fn track_byte_entries(m: Seq<((Vec<char>, Vec<char>), Vec<u8>)>) -> Seq<
    ((Seq<char>, Seq<char>), Seq<u8>),
> {
    m.map_values(|e: ((Vec<char>, Vec<char>), Vec<u8>)| ((e.0.0@, e.0.1@), e.1@))
}

/// The place of the first entry of `m` under the key `(a, b)`.
fn pair_key_position<V>(m: &Vec<((Vec<char>, Vec<char>), V)>, a: &[char], b: &[char]) -> (r: Option<
    usize,
>)
    ensures
        match r {
            Some(i) => i < m@.len() && m@[i as int].0.0@ == a@ && m@[i as int].0.1@ == b@
                && forall|j: int| 0 <= j < i ==> !(m@[j].0.0@ == a@ && m@[j].0.1@ == b@),
            None => forall|j: int| 0 <= j < m@.len() ==> !(m@[j].0.0@ == a@ && m@[j].0.1@ == b@),
        },
{
    let mut i: usize = 0;
    while i < m.len()
        invariant
            i <= m@.len(),
            forall|j: int| 0 <= j < i ==> !(m@[j].0.0@ == a@ && m@[j].0.1@ == b@),
        decreases m@.len() - i,
    {
        if chars_eq(m[i].0.0.as_slice(), a) && chars_eq(m[i].0.1.as_slice(), b) {
            return Some(i);
        }
        i = i + 1;
    }
    None
}

fn set_track_entry(m: &mut Vec<((Vec<char>, Vec<char>), Vec<u8>)>, a: Vec<char>, b: Vec<char>, v: Vec<u8>)
    ensures
        track_byte_entries(final(m)@) == kv_set(track_byte_entries(old(m)@), (a@, b@), v@),
{
    let pos = pair_key_position(m, a.as_slice(), b.as_slice());
    let ghost old_m = track_byte_entries(m@);
    let ghost ks = keys_of(old_m);
    let ghost kv = (a@, b@);
    let ghost vv = v@;
    match pos {
        Some(i) => {
            proof {
                assert forall|j: int| 0 <= j < i implies ks[j] != kv by {
                    assert(ks[j] == (m@[j].0.0@, m@[j].0.1@));
                }
                assert(ks[i as int] == (m@[i as int].0.0@, m@[i as int].0.1@));
                lemma_first_index(ks, kv, i as int);
            }
            m[i] = ((a, b), v);
            assert(track_byte_entries(m@) =~= old_m.update(i as int, (kv, vv)));
        },
        None => {
            proof {
                assert forall|j: int| 0 <= j < ks.len() implies ks[j] != kv by {
                    assert(ks[j] == (m@[j].0.0@, m@[j].0.1@));
                }
                lemma_no_index(ks, kv);
            }
            m.push(((a, b), v));
            assert(track_byte_entries(m@) =~= old_m.push((kv, vv)));
        },
    }
}

fn layout_chars(parts: &Vec<Vec<char>>) -> (r: Vec<char>)
    ensures
        r@ == layout_of(views(parts@)),
{
    let n = parts.len();
    if n <= 3 {
        let r: Vec<char> = Vec::new();
        assert(r@ =~= Seq::<char>::empty());
        return r;
    }
    let mut mid: Vec<Vec<char>> = Vec::new();
    let mut i: usize = 2;
    while i < n - 1
        invariant
            n == parts@.len(),
            n > 3,
            2 <= i <= n - 1,
            views(mid@) == views(parts@).subrange(2, i as int),
        decreases n - 1 - i,
    {
        let c = copy_chars(parts[i].as_slice());
        proof {
            lemma_views_push(mid@, c);
        }
        mid.push(c);
        assert(views(mid@) =~= views(parts@).subrange(2, i + 1));
        i = i + 1;
    }
    let sep: Vec<char> = vec!['/'];
    proof {
        reveal_strlit("/");
        assert(sep@ =~= "/"@);
    }
    join_chars(&mid, sep.as_slice())
}

/// The files named `name` in the `ui` folders of the archive `files`,
/// by track folder and layout (see `track_file_map`).
pub fn track_file_entries(files: &Vec<ArchiveFile>, name: &str) -> (r: Vec<
    ((Vec<char>, Vec<char>), Vec<u8>),
>)
    ensures
        track_byte_entries(r@) == track_file_map(archive_views(files@), name@),
{
    let ghost fs = archive_views(files@);
    let nm = str_chars(name);
    let ui: Vec<char> = vec!['u', 'i'];
    proof {
        reveal_strlit("ui");
        assert(ui@ =~= "ui"@);
    }
    let mut out: Vec<((Vec<char>, Vec<char>), Vec<u8>)> = Vec::new();
    let mut i: usize = 0;
    while i < files.len()
        invariant
            i <= files@.len(),
            fs == archive_views(files@),
            nm@ == name@,
            ui@ == "ui"@,
            track_byte_entries(out@) == track_file_map(fs.take(i as int), name@),
        decreases files@.len() - i,
    {
        let ghost tk = fs.take(i + 1);
        assert(tk.drop_last() =~= fs.take(i as int));
        assert(tk.last() == crate::net::catalog::archive_file_view(files@[i as int]));
        let parts = path_parts_of(files[i].path.as_str());
        let n = parts.len();
        if n >= 3 && chars_eq(parts[1].as_slice(), ui.as_slice()) && chars_eq(
            parts[n - 1].as_slice(),
            nm.as_slice(),
        ) {
            assert(views(parts@)[1] == parts@[1]@);
            assert(views(parts@).last() == parts@[n - 1]@);
            match &files[i].data {
                Some(d) => {
                    let folder = copy_chars(parts[0].as_slice());
                    let layout = layout_chars(&parts);
                    let bytes = copy_bytes(d.as_slice());
                    assert(views(parts@)[0] == parts@[0]@);
                    set_track_entry(&mut out, folder, layout, bytes);
                },
                None => {},
            }
        } else {
            proof {
                if n >= 3 {
                    assert(views(parts@)[1] == parts@[1]@);
                    assert(views(parts@).last() == parts@[n - 1]@);
                }
            }
        }
        i = i + 1;
    }
    assert(fs.take(files@.len() as int) =~= fs);
    out
}

// ------------------------------------------------------------------
// Catalogue entries
// ------------------------------------------------------------------

/// An entry of the track catalogue: one layout of a track. `document` is
/// the JSON text of the layout's `ui_track.json` where it parses, to
/// which the fields `track_folder`, `layout` and `thumbnail_base64` are
/// added where it is an object; without one the entry is the object of
/// these fields and `name`. `name` is what the list is sorted by.
pub struct TrackItem {
    pub document: Option<String>,
    pub name: String,
    pub track_folder: String,
    pub layout: String,
    pub thumbnail_base64: String,
}

pub struct TrackItemView {
    pub document: Option<Seq<char>>,
    pub name: Seq<char>,
    pub track_folder: Seq<char>,
    pub layout: Seq<char>,
    pub thumbnail_base64: Seq<char>,
}

impl View for TrackItem {
    type V = TrackItemView;

    open spec fn view(&self) -> TrackItemView {
        TrackItemView {
            document: opt_string_view(self.document),
            name: self.name@,
            track_folder: self.track_folder@,
            layout: self.layout@,
            thumbnail_base64: self.thumbnail_base64@,
        }
    }
}

impl TrackItem {
    /// A copy of this entry.
    pub fn duplicate(&self) -> (r: TrackItem)
        ensures
            r@ == self@,
    {
        let document = match &self.document {
            Some(d) => Some(d.clone()),
            None => None,
        };
        TrackItem {
            document,
            name: self.name.clone(),
            track_folder: self.track_folder.clone(),
            layout: self.layout.clone(),
            thumbnail_base64: self.thumbnail_base64.clone(),
        }
    }
}

pub open spec fn track_item_views(v: Seq<TrackItem>) -> Seq<TrackItemView> {
    v.map_values(|t: TrackItem| t@)
}

pub open spec fn track_item_names(v: Seq<TrackItemView>) -> Seq<Seq<char>> {
    v.map_values(|t: TrackItemView| t.name)
}

/// A `ui_track.json` of a layout, with its JSON text and what parsing
/// that text gave (see `json_doc_name`).
pub struct TrackDocument {
    pub track_folder: String,
    pub layout: String,
    pub text: String,
    pub parsed_name: Option<Option<String>>,
}

pub open spec fn track_document_view(d: TrackDocument) -> (
    (Seq<char>, Seq<char>),
    Seq<char>,
    Option<Option<Seq<char>>>,
) {
    (
        (d.track_folder@, d.layout@),
        d.text@,
        match d.parsed_name {
            Some(n) => Some(opt_string_view(n)),
            None => None,
        },
    )
}

pub open spec fn track_document_views(v: Seq<TrackDocument>) -> Seq<
    ((Seq<char>, Seq<char>), Seq<char>, Option<Option<Seq<char>>>),
> {
    v.map_values(|d: TrackDocument| track_document_view(d))
}

pub open spec fn preview_entries(m: Seq<((Vec<char>, Vec<char>), String)>) -> Seq<
    ((Seq<char>, Seq<char>), Seq<char>),
> {
    m.map_values(|e: ((Vec<char>, Vec<char>), String)| ((e.0.0@, e.0.1@), e.1@))
}

/// The name of a layout whose `ui_track.json` does not parse: the
/// folder, with the layout in brackets where there is one.
pub open spec fn fallback_track_name(folder: Seq<char>, layout: Seq<char>) -> Seq<char> {
    if layout.len() == 0 {
        folder
    } else {
        folder + " ("@ + layout + ")"@
    }
}

/// The preview of a layout: its own, else (for a named layout) the
/// track's, else none.
pub open spec fn track_thumbnail(previews: Seq<((Seq<char>, Seq<char>), Seq<char>)>, key: (Seq<char>, Seq<char>)) -> Seq<char> {
    match kv_get(previews, key) {
        Some(u) => u,
        None => if key.1.len() > 0 {
            opt_or_empty(kv_get(previews, (key.0, Seq::empty())))
        } else {
            Seq::empty()
        },
    }
}

/// The entry of a layout with a `ui_track.json`.
pub open spec fn track_doc_item(
    d: ((Seq<char>, Seq<char>), Seq<char>, Option<Option<Seq<char>>>),
    previews: Seq<((Seq<char>, Seq<char>), Seq<char>)>,
) -> TrackItemView {
    TrackItemView {
        document: match d.2 {
            Some(_) => Some(d.1),
            None => None,
        },
        name: match d.2 {
            Some(Some(n)) => n,
            Some(None) => Seq::empty(),
            None => fallback_track_name(d.0.0, d.0.1),
        },
        track_folder: d.0.0,
        layout: d.0.1,
        thumbnail_base64: track_thumbnail(previews, d.0),
    }
}

/// The entry of a track folder without any `ui_track.json`.
pub open spec fn track_fallback_item(dir: Seq<char>) -> TrackItemView {
    TrackItemView {
        document: None,
        name: dir,
        track_folder: dir,
        layout: Seq::empty(),
        thumbnail_base64: Seq::empty(),
    }
}

/// The entries of the folders `dirs` that are not among `folders`, in
/// order.
pub open spec fn track_fallbacks(dirs: Seq<Seq<char>>, folders: Seq<Seq<char>>) -> Seq<TrackItemView>
    decreases dirs.len(),
{
    if dirs.len() == 0 {
        Seq::empty()
    } else {
        let prev = track_fallbacks(dirs.drop_last(), folders);
        if folders.contains(dirs.last()) {
            prev
        } else {
            prev.push(track_fallback_item(dirs.last()))
        }
    }
}

/// The catalogue before sorting: an entry for each `ui_track.json`, then
/// one for each listed folder that has none.
pub open spec fn track_items(
    docs: Seq<((Seq<char>, Seq<char>), Seq<char>, Option<Option<Seq<char>>>)>,
    previews: Seq<((Seq<char>, Seq<char>), Seq<char>)>,
    dirs: Seq<Seq<char>>,
) -> Seq<TrackItemView> {
    docs.map_values(
        |d: ((Seq<char>, Seq<char>), Seq<char>, Option<Option<Seq<char>>>)| track_doc_item(d, previews),
    ) + track_fallbacks(
        dirs,
        docs.map_values(|d: ((Seq<char>, Seq<char>), Seq<char>, Option<Option<Seq<char>>>)| d.0.0),
    )
}

fn lookup_preview(m: &Vec<((Vec<char>, Vec<char>), String)>, a: &[char], b: &[char]) -> (r: Option<String>)
    ensures
        opt_string_view(r) == kv_get(preview_entries(m@), (a@, b@)),
{
    let ghost ks = keys_of(preview_entries(m@));
    let ghost kv = (a@, b@);
    match pair_key_position(m, a, b) {
        Some(i) => {
            proof {
                assert forall|j: int| 0 <= j < i implies ks[j] != kv by {
                    assert(ks[j] == (m@[j].0.0@, m@[j].0.1@));
                }
                assert(ks[i as int] == (m@[i as int].0.0@, m@[i as int].0.1@));
                lemma_first_index(ks, kv, i as int);
            }
            Some(m[i].1.clone())
        },
        None => {
            proof {
                assert forall|j: int| 0 <= j < ks.len() implies ks[j] != kv by {
                    assert(ks[j] == (m@[j].0.0@, m@[j].0.1@));
                }
                lemma_no_index(ks, kv);
            }
            None
        },
    }
}

fn thumbnail_of(m: &Vec<((Vec<char>, Vec<char>), String)>, folder: &[char], layout: &[char]) -> (r: String)
    ensures
        r@ == track_thumbnail(preview_entries(m@), (folder@, layout@)),
{
    match lookup_preview(m, folder, layout) {
        Some(u) => u,
        None => {
            if layout.len() > 0 {
                let empty: Vec<char> = Vec::new();
                assert(empty@ =~= Seq::<char>::empty());
                match lookup_preview(m, folder, empty.as_slice()) {
                    Some(u) => u,
                    None => String::new(),
                }
            } else {
                String::new()
            }
        },
    }
}

fn doc_item(d: &TrackDocument, previews: &Vec<((Vec<char>, Vec<char>), String)>) -> (r: TrackItem)
    ensures
        r@ == track_doc_item(track_document_view(*d), preview_entries(previews@)),
{
    let folder = str_chars(d.track_folder.as_str());
    let layout = str_chars(d.layout.as_str());
    let thumb = thumbnail_of(previews, folder.as_slice(), layout.as_slice());
    let (document, name) = match &d.parsed_name {
        Some(n) => {
            let nm = match n {
                Some(x) => x.clone(),
                None => String::new(),
            };
            (Some(d.text.clone()), nm)
        },
        None => {
            let mut nm = d.track_folder.clone();
            if layout.len() > 0 {
                append_str(&mut nm, " (");
                append_str(&mut nm, d.layout.as_str());
                append_str(&mut nm, ")");
            }
            (None, nm)
        },
    };
    TrackItem {
        document,
        name,
        track_folder: d.track_folder.clone(),
        layout: d.layout.clone(),
        thumbnail_base64: thumb,
    }
}

fn has_folder(docs: &Vec<TrackDocument>, dir: &str) -> (r: bool)
    ensures
        r == track_document_views(docs@).map_values(
            |d: ((Seq<char>, Seq<char>), Seq<char>, Option<Option<Seq<char>>>)| d.0.0,
        ).contains(dir@),
{
    let ghost fs = track_document_views(docs@).map_values(
        |d: ((Seq<char>, Seq<char>), Seq<char>, Option<Option<Seq<char>>>)| d.0.0,
    );
    let dv = str_chars(dir);
    let mut i: usize = 0;
    while i < docs.len()
        invariant
            i <= docs@.len(),
            dv@ == dir@,
            fs == track_document_views(docs@).map_values(
                |d: ((Seq<char>, Seq<char>), Seq<char>, Option<Option<Seq<char>>>)| d.0.0,
            ),
            forall|j: int| 0 <= j < i ==> fs[j] != dir@,
        decreases docs@.len() - i,
    {
        let f = str_chars(docs[i].track_folder.as_str());
        if chars_eq(f.as_slice(), dv.as_slice()) {
            assert(fs[i as int] == dir@);
            return true;
        }
        assert(fs[i as int] == docs@[i as int].track_folder@);
        i = i + 1;
    }
    false
}

/// The sorted track catalogue of the parsed `ui_track.json` files
/// `docs`, the preview data URIs `previews` and the listed track folders
/// `dirs`: `track_items` stably sorted by name.
pub fn build_track_catalog(
    docs: &Vec<TrackDocument>,
    previews: &Vec<((Vec<char>, Vec<char>), String)>,
    dirs: &Vec<String>,
) -> (r: Vec<TrackItem>)
    ensures
        is_stable_sort(
            track_item_views(r@),
            track_items(track_document_views(docs@), preview_entries(previews@), string_views(dirs@)),
            track_item_names(
                track_items(
                    track_document_views(docs@),
                    preview_entries(previews@),
                    string_views(dirs@),
                ),
            ),
        ),
{
    let ghost dv = track_document_views(docs@);
    let ghost pv = preview_entries(previews@);
    let ghost folders = dv.map_values(
        |d: ((Seq<char>, Seq<char>), Seq<char>, Option<Option<Seq<char>>>)| d.0.0,
    );
    let ghost doc_items = dv.map_values(
        |d: ((Seq<char>, Seq<char>), Seq<char>, Option<Option<Seq<char>>>)| track_doc_item(d, pv),
    );
    let mut items: Vec<TrackItem> = Vec::new();
    let mut i: usize = 0;
    while i < docs.len()
        invariant
            i <= docs@.len(),
            dv == track_document_views(docs@),
            pv == preview_entries(previews@),
            doc_items == dv.map_values(
                |d: ((Seq<char>, Seq<char>), Seq<char>, Option<Option<Seq<char>>>)|
                    track_doc_item(d, pv),
            ),
            track_item_views(items@) == doc_items.take(i as int),
        decreases docs@.len() - i,
    {
        let it = doc_item(&docs[i], previews);
        assert(dv[i as int] == track_document_view(docs@[i as int]));
        assert(doc_items[i as int] == track_doc_item(dv[i as int], pv));
        let ghost before = track_item_views(items@);
        items.push(it);
        assert(track_item_views(items@) == before.push(it@));
        assert(track_item_views(items@) =~= doc_items.take(i + 1));
        i = i + 1;
    }
    assert(doc_items.take(docs@.len() as int) =~= doc_items);
    let ghost dirs_v = string_views(dirs@);
    let mut k: usize = 0;
    while k < dirs.len()
        invariant
            k <= dirs@.len(),
            dv == track_document_views(docs@),
            dirs_v == string_views(dirs@),
            folders == dv.map_values(
                |d: ((Seq<char>, Seq<char>), Seq<char>, Option<Option<Seq<char>>>)| d.0.0,
            ),
            track_item_views(items@) == doc_items + track_fallbacks(dirs_v.take(k as int), folders),
        decreases dirs@.len() - k,
    {
        let ghost tk = dirs_v.take(k + 1);
        assert(tk.drop_last() =~= dirs_v.take(k as int));
        assert(tk.last() == dirs@[k as int]@);
        if !has_folder(docs, dirs[k].as_str()) {
            let d = dirs[k].clone();
            let it = TrackItem {
                document: None,
                name: d.clone(),
                track_folder: d,
                layout: String::new(),
                thumbnail_base64: String::new(),
            };
            let ghost before = track_item_views(items@);
            items.push(it);
            assert(track_item_views(items@) =~= before.push(track_fallback_item(dirs@[k as int]@)));
        }
        k = k + 1;
    }
    assert(dirs_v.take(dirs@.len() as int) =~= dirs_v);
    let ghost all = track_item_views(items@);
    assert(all == track_items(dv, pv, dirs_v));
    let mut names: Vec<Vec<char>> = Vec::new();
    let mut j: usize = 0;
    while j < items.len()
        invariant
            j <= items@.len(),
            all == track_item_views(items@),
            views(names@) == track_item_names(all).take(j as int),
        decreases items@.len() - j,
    {
        let nm = str_chars(items[j].name.as_str());
        proof {
            lemma_views_push(names@, nm);
        }
        names.push(nm);
        assert(views(names@) =~= track_item_names(all).take(j + 1));
        j = j + 1;
    }
    assert(track_item_names(all).take(items@.len() as int) =~= track_item_names(all));
    assert(views(names@) == names@.map_values(|k: Vec<char>| k@));
    let order = sorted_order(&names);
    let mut out: Vec<TrackItem> = Vec::new();
    let mut m: usize = 0;
    while m < order.len()
        invariant
            m <= order@.len(),
            order@.len() == items@.len(),
            all == track_item_views(items@),
            forall|q: int| 0 <= q < order@.len() ==> order@[q] < items@.len(),
            out@.len() == m,
            forall|q: int| 0 <= q < m ==> track_item_views(out@)[q] == all[order@[q] as int],
        decreases order@.len() - m,
    {
        let it = items[order[m]].duplicate();
        let ghost old_out = out@;
        assert(it@ == all[order@[m as int] as int]);
        out.push(it);
        proof {
            assert forall|q: int| 0 <= q < m + 1 implies track_item_views(out@)[q]
                == all[order@[q] as int] by {
                assert(track_item_views(out@)[q] == out@[q]@);
                if q < m {
                    assert(out@[q] == old_out[q]);
                    assert(track_item_views(old_out)[q] == old_out[q]@);
                }
            }
        }
        m = m + 1;
    }
    assert(stably_sorted(track_item_names(all), order@));
    out
}

// ------------------------------------------------------------------
// The catalogue of an instance
// ------------------------------------------------------------------

/// The `ui_track.json` files of the archive files `listing`, by track
/// folder and layout, with their JSON text and what parsing it gave.
pub open spec fn track_documents(listing: Seq<(Seq<char>, Option<Seq<u8>>)>) -> Seq<
    ((Seq<char>, Seq<char>), Seq<char>, Option<Option<Seq<char>>>),
> {
    track_file_map(listing, "ui_track.json"@).map_values(
        |e: ((Seq<char>, Seq<char>), Seq<u8>)|
            (e.0, ui_json_text(e.1), json_doc_name(ui_json_text(e.1))),
    )
}

/// The `preview.png` files of the archive files `listing`, by track
/// folder and layout, as data URIs.
pub open spec fn track_previews(listing: Seq<(Seq<char>, Option<Seq<u8>>)>) -> Seq<
    ((Seq<char>, Seq<char>), Seq<char>),
> {
    track_file_map(listing, "preview.png"@).map_values(
        |e: ((Seq<char>, Seq<char>), Seq<u8>)| (e.0, png_data_uri(e.1)),
    )
}

/// The track catalogue, before sorting, of an instance whose track
/// folders were listed as `dirs_output` and whose archive of `ui` files
/// was printed as `archive_output` with the exit status `archive_status`.
pub open spec fn track_catalog(dirs_output: Seq<char>, archive_output: Seq<char>, archive_status: i32) -> Seq<
    TrackItemView,
> {
    let listing = archive_listing(archive_output, archive_status);
    track_items(track_documents(listing), track_previews(listing), directory_list(dirs_output))
}

/// The track catalogue of an instance, sorted by name, from what the
/// commands `track_dirs_command` and `track_archive_command` printed (see
/// `track_catalog`).
pub fn fetch_tracks(dirs_output: &str, archive_output: &str, archive_status: i32) -> (r: Vec<TrackItem>)
    ensures
        is_stable_sort(
            track_item_views(r@),
            track_catalog(dirs_output@, archive_output@, archive_status),
            track_item_names(track_catalog(dirs_output@, archive_output@, archive_status)),
        ),
{
    let dirs = parse_directory_list(dirs_output);
    let files = archive_files(archive_output, archive_status);
    let ghost listing = archive_listing(archive_output@, archive_status);
    let raw_docs = track_file_entries(&files, "ui_track.json");
    let raw_previews = track_file_entries(&files, "preview.png");
    let ghost rd = track_byte_entries(raw_docs@);
    let ghost rp = track_byte_entries(raw_previews@);
    let mut docs: Vec<TrackDocument> = Vec::new();
    let mut i: usize = 0;
    while i < raw_docs.len()
        invariant
            i <= raw_docs@.len(),
            rd == track_byte_entries(raw_docs@),
            track_document_views(docs@) == rd.map_values(
                |e: ((Seq<char>, Seq<char>), Seq<u8>)|
                    (e.0, ui_json_text(e.1), json_doc_name(ui_json_text(e.1))),
            ).take(i as int),
        decreases raw_docs@.len() - i,
    {
        let text = json_text_of(raw_docs[i].1.as_slice());
        let parsed = json_name(text.as_str());
        let folder = chars_to_string(raw_docs[i].0.0.as_slice());
        let layout = chars_to_string(raw_docs[i].0.1.as_slice());
        let d = TrackDocument { track_folder: folder, layout, text, parsed_name: parsed };
        assert(rd[i as int] == (
            (raw_docs@[i as int].0.0@, raw_docs@[i as int].0.1@),
            raw_docs@[i as int].1@,
        ));
        assert(track_document_view(d) == (rd[i as int].0, ui_json_text(rd[i as int].1), json_doc_name(
            ui_json_text(rd[i as int].1),
        )));
        let ghost before = track_document_views(docs@);
        docs.push(d);
        assert(track_document_views(docs@) == before.push(track_document_view(d)));
        assert(track_document_views(docs@) =~= rd.map_values(
            |e: ((Seq<char>, Seq<char>), Seq<u8>)|
                (e.0, ui_json_text(e.1), json_doc_name(ui_json_text(e.1))),
        ).take(i + 1));
        i = i + 1;
    }
    let mut previews: Vec<((Vec<char>, Vec<char>), String)> = Vec::new();
    let mut b: usize = 0;
    while b < raw_previews.len()
        invariant
            b <= raw_previews@.len(),
            rp == track_byte_entries(raw_previews@),
            preview_entries(previews@) == rp.map_values(
                |e: ((Seq<char>, Seq<char>), Seq<u8>)| (e.0, png_data_uri(e.1)),
            ).take(b as int),
        decreases raw_previews@.len() - b,
    {
        let uri = png_data_uri_of(raw_previews[b].1.as_slice());
        let folder = copy_chars(raw_previews[b].0.0.as_slice());
        let layout = copy_chars(raw_previews[b].0.1.as_slice());
        assert(rp[b as int] == (
            (raw_previews@[b as int].0.0@, raw_previews@[b as int].0.1@),
            raw_previews@[b as int].1@,
        ));
        let ghost before = preview_entries(previews@);
        previews.push(((folder, layout), uri));
        assert(preview_entries(previews@) == before.push((rp[b as int].0, png_data_uri(rp[b as int].1))));
        assert(preview_entries(previews@) =~= rp.map_values(
            |e: ((Seq<char>, Seq<char>), Seq<u8>)| (e.0, png_data_uri(e.1)),
        ).take(b + 1));
        b = b + 1;
    }
    proof {
        reveal_strlit("ui_track.json");
        reveal_strlit("preview.png");
    }
    assert(rd.map_values(
        |e: ((Seq<char>, Seq<char>), Seq<u8>)|
            (e.0, ui_json_text(e.1), json_doc_name(ui_json_text(e.1))),
    ).take(raw_docs@.len() as int) =~= track_documents(listing));
    assert(rp.map_values(|e: ((Seq<char>, Seq<char>), Seq<u8>)| (e.0, png_data_uri(e.1))).take(
        raw_previews@.len() as int,
    ) =~= track_previews(listing));
    build_track_catalog(&docs, &previews, &dirs)
}

// ------------------------------------------------------------------
// What the catalogue holds
// ------------------------------------------------------------------

proof fn lemma_fallbacks_cover(dirs: Seq<Seq<char>>, folders: Seq<Seq<char>>)
    ensures
        forall|k: int|
            0 <= k < dirs.len() && !folders.contains(#[trigger] dirs[k]) ==> exists|i: int|
                0 <= i < track_fallbacks(dirs, folders).len() && track_fallbacks(dirs, folders)[i].track_folder
                    == dirs[k],
    decreases dirs.len(),
{
    if dirs.len() > 0 {
        let prev = track_fallbacks(dirs.drop_last(), folders);
        lemma_fallbacks_cover(dirs.drop_last(), folders);
        let fb = track_fallbacks(dirs, folders);
        assert forall|k: int|
            0 <= k < dirs.len() && !folders.contains(#[trigger] dirs[k]) implies exists|i: int|
                0 <= i < fb.len() && fb[i].track_folder == dirs[k] by {
            if k < dirs.len() - 1 {
                assert(dirs.drop_last()[k] == dirs[k]);
                let i = choose|i: int|
                    0 <= i < prev.len() && prev[i].track_folder == dirs.drop_last()[k];
                assert(fb[i] == prev[i]);
            } else {
                assert(fb[prev.len() as int].track_folder == dirs[k]);
            }
        }
    }
}

/// Every track folder that the listing names has an entry in the sorted
/// catalogue, and so has every layout with a `ui_track.json`.
pub proof fn lemma_catalog_lists_every_track(
    dirs_output: Seq<char>,
    archive_output: Seq<char>,
    archive_status: i32,
    out: Seq<TrackItemView>,
)
    requires
        is_stable_sort(
            out,
            track_catalog(dirs_output, archive_output, archive_status),
            track_item_names(track_catalog(dirs_output, archive_output, archive_status)),
        ),
    ensures
        forall|k: int|
            0 <= k < directory_list(dirs_output).len() ==> exists|i: int|
                0 <= i < out.len() && out[i].track_folder == #[trigger] directory_list(dirs_output)[k],
        forall|k: int|
            0 <= k < track_documents(archive_listing(archive_output, archive_status)).len() ==> exists|i: int|
                0 <= i < out.len() && (out[i].track_folder, out[i].layout) == (#[trigger] track_documents(
                    archive_listing(archive_output, archive_status),
                )[k]).0,
{
    let listing = archive_listing(archive_output, archive_status);
    let docs = track_documents(listing);
    let previews = track_previews(listing);
    let dirs = directory_list(dirs_output);
    let cat = track_catalog(dirs_output, archive_output, archive_status);
    let folders = docs.map_values(
        |d: ((Seq<char>, Seq<char>), Seq<char>, Option<Option<Seq<char>>>)| d.0.0,
    );
    crate::order::lemma_stable_sort_keeps_items(out, cat, track_item_names(cat));
    lemma_fallbacks_cover(dirs, folders);
    assert forall|k: int| 0 <= k < docs.len() implies exists|i: int|
        0 <= i < out.len() && (out[i].track_folder, out[i].layout) == (#[trigger] docs[k]).0 by {
        assert(cat[k] == track_doc_item(docs[k], previews));
        assert(out.contains(cat[k]));
    }
    assert forall|k: int| 0 <= k < dirs.len() implies exists|i: int|
        0 <= i < out.len() && out[i].track_folder == #[trigger] dirs[k] by {
        if folders.contains(dirs[k]) {
            let j = choose|j: int| 0 <= j < folders.len() && folders[j] == dirs[k];
            assert(cat[j] == track_doc_item(docs[j], previews));
            assert(out.contains(cat[j]));
        } else {
            let fb = track_fallbacks(dirs, folders);
            let f = choose|f: int| 0 <= f < fb.len() && fb[f].track_folder == dirs[k];
            assert(cat[docs.len() + f] == fb[f]);
            assert(out.contains(cat[docs.len() + f]));
        }
    }
}

} // verus!
