//! What the car and track catalogues share: the files of the archive of
//! `ui` folders that a host sends, keyed lists in which a later entry
//! replaces an earlier one, the repair of the JSON text of the `ui`
//! files, and the data URIs of their images.
use vstd::prelude::*;
use std::io::Read;
use crate::text::{append_str, chars_eq, replace, replace_chars, split_char, str_chars};

verus! {

// ------------------------------------------------------------------
// Calls into base64, flate2, tar, serde_json and std
// ------------------------------------------------------------------

/// One file of an archive: its path, and its bytes where they could be
/// read.
pub struct ArchiveFile {
    pub path: String,
    pub data: Option<Vec<u8>>,
}

/// The path and the bytes of an archive file.
pub open spec fn archive_file_view(f: ArchiveFile) -> (Seq<char>, Option<Seq<u8>>) {
    (
        f.path@,
        match f.data {
            Some(d) => Some(d@),
            None => None,
        },
    )
}

pub open spec fn archive_views(fs: Seq<ArchiveFile>) -> Seq<(Seq<char>, Option<Seq<u8>>)> {
    fs.map_values(|f: ArchiveFile| archive_file_view(f))
}

/// The files, in archive order, of the gzip-compressed tar archive
/// `bytes`, as `tar::Archive::entries` reads them from a
/// `flate2::read::GzDecoder`: each entry whose path could be read, with
/// its bytes where `read_to_end` succeeded.
pub uninterp spec fn tar_gz_listing(bytes: Seq<u8>) -> Seq<(Seq<char>, Option<Seq<u8>>)>;

/// `tar::Archive::entries` over a `flate2::read::GzDecoder` of `bytes`:
/// the entries that it yields without error, each with its path (lossily
/// as text) and its bytes where they could be read. Entries that it
/// fails on are left out, as is everything where the archive cannot be
/// opened. The result is named, as a function of the bytes alone; what
/// the tar and gzip formats make of the bytes is not stated.
#[verifier::external_body]
pub(crate) fn tar_gz_files(bytes: &[u8]) -> (r: Vec<ArchiveFile>)
    ensures
        archive_views(r@) == tar_gz_listing(bytes@),
{
    let mut out = Vec::new();
    let mut archive = tar::Archive::new(flate2::read::GzDecoder::new(bytes));
    if let Ok(entries) = archive.entries() {
        for mut file in entries.flatten() {
            if let Ok(path) = file.path().map(|p| p.to_string_lossy().to_string()) {
                let mut buf = Vec::new();
                let data = file.read_to_end(&mut buf).ok().map(|_| buf);
                out.push(ArchiveFile { path, data });
            }
        }
    }
    out
}

/// The bytes that standard base64 (with padding) decodes `text` into,
/// `None` where `text` is not valid base64.
pub uninterp spec fn base64_decoded(text: Seq<char>) -> Option<Seq<u8>>;

/// `base64::engine::general_purpose::STANDARD.decode`: the result is
/// named as a function of the text alone; the alphabet and padding rules
/// are not written out.
#[verifier::external_body]
pub(crate) fn base64_decode(text: &str) -> (r: Option<Vec<u8>>)
    ensures
        match r {
            Some(b) => base64_decoded(text@) == Some(b@),
            None => base64_decoded(text@) is None,
        },
{
    base64::Engine::decode(&base64::engine::general_purpose::STANDARD, text).ok()
}

/// The standard base64 text (with padding) of `bytes`.
pub uninterp spec fn base64_encoded(bytes: Seq<u8>) -> Seq<char>;

/// `base64::engine::general_purpose::STANDARD.encode`: the result is
/// named as a function of the bytes alone; the encoding is not written
/// out.
#[verifier::external_body]
pub(crate) fn base64_encode(bytes: &[u8]) -> (r: String)
    ensures
        r@ == base64_encoded(bytes@),
{
    base64::Engine::encode(&base64::engine::general_purpose::STANDARD, bytes)
}

/// The text of `bytes` read as UTF-8, each invalid sequence replaced by
/// U+FFFD (`String::from_utf8_lossy`).
pub uninterp spec fn utf8_lossy_text(bytes: Seq<u8>) -> Seq<char>;

/// `String::from_utf8_lossy`: the result is named as a function of the
/// bytes; of it, only that ASCII bytes are read one character each is
/// stated.
#[verifier::external_body]
pub(crate) fn utf8_lossy(bytes: &[u8]) -> (r: String)
    ensures
        r@ == utf8_lossy_text(bytes@),
        (forall|i: int| 0 <= i < bytes@.len() ==> bytes@[i] < 128) ==> r@ == bytes@.map_values(
            |b: u8| b as char,
        ),
{
    String::from_utf8_lossy(bytes).to_string()
}

/// What `serde_json` makes of `text` as a `Value`: `None` where it is not
/// JSON; otherwise the string under the key `name` where the document is
/// an object that has one.
pub uninterp spec fn json_doc_name(text: Seq<char>) -> Option<Option<Seq<char>>>;

pub open spec fn opt_string_view(o: Option<String>) -> Option<Seq<char>> {
    match o {
        Some(s) => Some(s@),
        None => None,
    }
}

/// `serde_json::from_str::<Value>`, then `get("name")` and `as_str`: the
/// result is named as a function of the text; the JSON grammar is not
/// written out.
#[verifier::external_body]
pub(crate) fn json_name(text: &str) -> (r: Option<Option<String>>)
    ensures
        match r {
            Some(n) => json_doc_name(text@) == Some(opt_string_view(n)),
            None => json_doc_name(text@) is None,
        },
{
    serde_json::from_str::<serde_json::Value>(text).ok().map(
        |v| v.get("name").and_then(|n| n.as_str()).map(|n| n.to_string()),
    )
}

// ------------------------------------------------------------------
// Keyed lists: a later entry for a key replaces the earlier one in place
// ------------------------------------------------------------------

pub open spec fn keys_of<K, V>(m: Seq<(K, V)>) -> Seq<K> {
    m.map_values(|e: (K, V)| e.0)
}

/// `m` with `v` under `k`: in the place of `k` where `m` has it, else at
/// the end.
pub open spec fn kv_set<K, V>(m: Seq<(K, V)>, k: K, v: V) -> Seq<(K, V)> {
    match keys_of(m).index_of_first(k) {
        Some(i) => m.update(i, (k, v)),
        None => m.push((k, v)),
    }
}

/// What `m` holds under `k`.
pub open spec fn kv_get<K, V>(m: Seq<(K, V)>, k: K) -> Option<V> {
    match keys_of(m).index_of_first(k) {
        Some(i) => Some(m[i].1),
        None => None,
    }
}

/// `i` is the first place of `k` in `ks`.
pub proof fn lemma_first_index<K>(ks: Seq<K>, k: K, i: int)
    requires
        0 <= i < ks.len(),
        ks[i] == k,
        forall|j: int| 0 <= j < i ==> ks[j] != k,
    ensures
        ks.index_of_first(k) == Some(i),
{
    ks.index_of_first_ensures(k);
    assert(ks.contains(k));
}

/// `ks` does not hold `k`.
pub proof fn lemma_no_index<K>(ks: Seq<K>, k: K)
    requires
        forall|j: int| 0 <= j < ks.len() ==> ks[j] != k,
    ensures
        ks.index_of_first(k) is None,
{
    ks.index_of_first_ensures(k);
}

// ------------------------------------------------------------------
// Paths of the archive
// ------------------------------------------------------------------

/// The components of an archive path, without a leading `.`.
pub open spec fn path_parts(path: Seq<char>) -> Seq<Seq<char>> {
    let parts = split_char(path, '/');
    if parts.len() > 0 && parts[0] == seq!['.'] {
        parts.drop_first()
    } else {
        parts
    }
}

/// The path lies in the `ui` folder of a content folder:
/// `<folder>/ui/...`.
pub open spec fn is_ui_path(parts: Seq<Seq<char>>) -> bool {
    parts.len() >= 3 && parts[1] == "ui"@
}

/// The components of `path`, without a leading `.`.
pub fn path_parts_of(path: &str) -> (r: Vec<Vec<char>>)
    ensures
        crate::text::views(r@) == path_parts(path@),
{
    let chars = str_chars(path);
    let mut parts = crate::text::split_chars(chars.as_slice(), '/');
    proof {
        crate::text::lemma_split_char_nonempty(path@, '/');
    }
    let dot: Vec<char> = vec!['.'];
    if parts.len() > 0 && chars_eq(parts[0].as_slice(), dot.as_slice()) {
        assert(dot@ =~= seq!['.']);
        let ghost before = parts@;
        parts.remove(0);
        assert(crate::text::views(parts@) =~= crate::text::views(before).drop_first());
    } else {
        assert(dot@ =~= seq!['.']);
    }
    parts
}

// ------------------------------------------------------------------
// The JSON text of a `ui` file
// ------------------------------------------------------------------

/// `b` without a leading UTF-8 byte order mark.
pub open spec fn strip_bom(b: Seq<u8>) -> Seq<u8> {
    if b.len() >= 3 && b[0] == 0xEFu8 && b[1] == 0xBBu8 && b[2] == 0xBFu8 {
        b.skip(3)
    } else {
        b
    }
}

/// `s` without the trailing commas before a closing brace or bracket
/// that the game's files often have, as the replacements `,\n}`,
/// `,\r\n}`, `,}`, `,\n]`, `,\r\n]` and `,]` make them, in that order.
pub open spec fn without_trailing_commas(s: Seq<char>) -> Seq<char> {
    let s1 = replace(s, ",\n}"@, "\n}"@);
    let s2 = replace(s1, ",\r\n}"@, "\r\n}"@);
    let s3 = replace(s2, ",}"@, "}"@);
    let s4 = replace(s3, ",\n]"@, "\n]"@);
    let s5 = replace(s4, ",\r\n]"@, "\r\n]"@);
    replace(s5, ",]"@, "]"@)
}

/// The JSON text of a `ui` file with the bytes `b`.
pub open spec fn ui_json_text(b: Seq<u8>) -> Seq<char> {
    without_trailing_commas(utf8_lossy_text(strip_bom(b)))
}

fn replace_in(v: Vec<char>, from: &str, to: &str) -> (r: Vec<char>)
    requires
        from@.len() > 0,
    ensures
        r@ == replace(v@, from@, to@),
{
    let f = str_chars(from);
    let t = str_chars(to);
    replace_chars(v.as_slice(), f.as_slice(), t.as_slice())
}

/// The JSON text of a `ui` file with the bytes `b`: without a byte order
/// mark, read as UTF-8, and without trailing commas.
pub fn json_text_of(b: &[u8]) -> (r: String)
    ensures
        r@ == ui_json_text(b@),
{
    let mut body: Vec<u8> = Vec::new();
    let start: usize = if b.len() >= 3 && b[0] == 0xEFu8 && b[1] == 0xBBu8 && b[2] == 0xBFu8 {
        3
    } else {
        0
    };
    let mut i: usize = start;
    while i < b.len()
        invariant
            start <= i <= b.len(),
            body@ == b@.subrange(start as int, i as int),
        decreases b.len() - i,
    {
        body.push(b[i]);
        i = i + 1;
        assert(body@ =~= b@.subrange(start as int, i as int));
    }
    assert(body@ =~= strip_bom(b@));
    let text = utf8_lossy(body.as_slice());
    proof {
        reveal_strlit(",\n}");
        reveal_strlit(",\r\n}");
        reveal_strlit(",}");
        reveal_strlit(",\n]");
        reveal_strlit(",\r\n]");
        reveal_strlit(",]");
    }
    let v = str_chars(text.as_str());
    let v = replace_in(v, ",\n}", "\n}");
    let v = replace_in(v, ",\r\n}", "\r\n}");
    let v = replace_in(v, ",}", "}");
    let v = replace_in(v, ",\n]", "\n]");
    let v = replace_in(v, ",\r\n]", "\r\n]");
    let v = replace_in(v, ",]", "]");
    crate::text::chars_to_string(v.as_slice())
}

/// The data URI of a PNG image with the bytes `b`.
pub open spec fn png_data_uri(b: Seq<u8>) -> Seq<char> {
    "data:image/png;base64,"@ + base64_encoded(b)
}

/// The data URI of a PNG image with the bytes `b`.
pub fn png_data_uri_of(b: &[u8]) -> (r: String)
    ensures
        r@ == png_data_uri(b@),
{
    let mut s = String::new();
    append_str(&mut s, "data:image/png;base64,");
    let enc = base64_encode(b);
    append_str(&mut s, enc.as_str());
    s
}

/// The archive that a host printed as base64: `None` where the command
/// failed (a non-zero `status`), printed nothing, or printed text that
/// is not base64.
pub open spec fn archive_bytes(output: Seq<char>, status: i32) -> Option<Seq<u8>> {
    let t = crate::text::trim(output);
    if status != 0 || t.len() == 0 {
        None
    } else {
        base64_decoded(crate::text::trim(t))
    }
}

/// The files of the archive that a host printed as base64 (see
/// `archive_bytes`); none where there is no archive.
pub open spec fn archive_listing(output: Seq<char>, status: i32) -> Seq<(Seq<char>, Option<Seq<u8>>)> {
    match archive_bytes(output, status) {
        Some(b) => tar_gz_listing(b),
        None => Seq::empty(),
    }
}

/// The files of the archive that a host printed as base64 with the exit
/// status `status`.
pub fn archive_files(output: &str, status: i32) -> (r: Vec<ArchiveFile>)
    ensures
        archive_views(r@) == archive_listing(output@, status),
{
    let chars = str_chars(output);
    let t = crate::text::trim_chars(chars.as_slice());
    if status != 0 || t.len() == 0 {
        let r: Vec<ArchiveFile> = Vec::new();
        assert(archive_views(r@) =~= Seq::empty());
        return r;
    }
    let t2 = crate::text::trim_chars(t.as_slice());
    let text = crate::text::chars_to_string(t2.as_slice());
    match base64_decode(text.as_str()) {
        Some(bytes) => tar_gz_files(bytes.as_slice()),
        None => {
            let r: Vec<ArchiveFile> = Vec::new();
            assert(archive_views(r@) =~= Seq::empty());
            r
        },
    }
}

// ------------------------------------------------------------------
// Keyed lists held in vectors
// ------------------------------------------------------------------

/// The place of the first entry of `m` under `k`.
pub fn key_position<V>(m: &Vec<(Vec<char>, V)>, k: &[char]) -> (r: Option<usize>)
    ensures
        match r {
            Some(i) => i < m@.len() && m@[i as int].0@ == k@ && forall|j: int|
                0 <= j < i ==> m@[j].0@ != k@,
            None => forall|j: int| 0 <= j < m@.len() ==> m@[j].0@ != k@,
        },
{
    let mut i: usize = 0;
    while i < m.len()
        invariant
            i <= m@.len(),
            forall|j: int| 0 <= j < i ==> m@[j].0@ != k@,
        decreases m@.len() - i,
    {
        if chars_eq(m[i].0.as_slice(), k) {
            return Some(i);
        }
        i = i + 1;
    }
    None
}

/// A copy of the bytes `b`.
pub fn copy_bytes(b: &[u8]) -> (r: Vec<u8>)
    ensures
        r@ == b@,
{
    let mut r: Vec<u8> = Vec::new();
    let mut i: usize = 0;
    while i < b.len()
        invariant
            i <= b.len(),
            r@ == b@.take(i as int),
        decreases b.len() - i,
    {
        r.push(b[i]);
        i = i + 1;
        assert(r@ =~= b@.take(i as int));
    }
    assert(b@.take(b.len() as int) =~= b@);
    r
}

pub open spec fn byte_entries(m: Seq<(Vec<char>, Vec<u8>)>) -> Seq<(Seq<char>, Seq<u8>)> {
    m.map_values(|e: (Vec<char>, Vec<u8>)| (e.0@, e.1@))
}

/// Puts `v` under `k` in `m`, in the place of an entry under `k` where
/// there is one.
pub fn set_byte_entry(m: &mut Vec<(Vec<char>, Vec<u8>)>, k: Vec<char>, v: Vec<u8>)
    ensures
        byte_entries(final(m)@) == kv_set(byte_entries(old(m)@), k@, v@),
{
    let pos = key_position(m, k.as_slice());
    let ghost old_m = byte_entries(m@);
    let ghost ks = keys_of(old_m);
    let ghost kv = k@;
    let ghost vv = v@;
    match pos {
        Some(i) => {
            proof {
                assert forall|j: int| 0 <= j < i implies ks[j] != kv by {
                    assert(ks[j] == m@[j].0@);
                }
                assert(ks[i as int] == m@[i as int].0@);
                lemma_first_index(ks, kv, i as int);
            }
            m[i] = (k, v);
            assert(byte_entries(m@) =~= old_m.update(i as int, (kv, vv)));
        },
        None => {
            proof {
                assert forall|j: int| 0 <= j < ks.len() implies ks[j] != kv by {
                    assert(ks[j] == m@[j].0@);
                }
                lemma_no_index(ks, kv);
            }
            m.push((k, v));
            assert(byte_entries(m@) =~= old_m.push((kv, vv)));
        },
    }
}

/// The files named `name` in the `ui` folders of the archive `files`,
/// by content folder: for each folder, the bytes of its last such file
/// that could be read, in the order in which the folders first have one.
pub open spec fn ui_file_map(files: Seq<(Seq<char>, Option<Seq<u8>>)>, name: Seq<char>) -> Seq<
    (Seq<char>, Seq<u8>),
>
    decreases files.len(),
{
    if files.len() == 0 {
        Seq::empty()
    } else {
        let prev = ui_file_map(files.drop_last(), name);
        let f = files.last();
        let parts = path_parts(f.0);
        if is_ui_path(parts) && parts.last() == name && f.1 is Some {
            kv_set(prev, parts[0], f.1->0)
        } else {
            prev
        }
    }
}

/// The files named `name` in the `ui` folders of the archive `files`,
/// by content folder (see `ui_file_map`).
pub fn ui_file_entries(files: &Vec<ArchiveFile>, name: &str) -> (r: Vec<(Vec<char>, Vec<u8>)>)
    ensures
        byte_entries(r@) == ui_file_map(archive_views(files@), name@),
{
    let ghost fs = archive_views(files@);
    let nm = str_chars(name);
    let ui: Vec<char> = vec!['u', 'i'];
    proof {
        reveal_strlit("ui");
        assert(ui@ =~= "ui"@);
    }
    let mut out: Vec<(Vec<char>, Vec<u8>)> = Vec::new();
    let mut i: usize = 0;
    while i < files.len()
        invariant
            i <= files@.len(),
            fs == archive_views(files@),
            nm@ == name@,
            ui@ == "ui"@,
            byte_entries(out@) == ui_file_map(fs.take(i as int), name@),
        decreases files@.len() - i,
    {
        let ghost tk = fs.take(i + 1);
        assert(tk.drop_last() =~= fs.take(i as int));
        assert(tk.last() == archive_file_view(files@[i as int]));
        let parts = path_parts_of(files[i].path.as_str());
        let n = parts.len();
        if n >= 3 && chars_eq(parts[1].as_slice(), ui.as_slice()) && chars_eq(
            parts[n - 1].as_slice(),
            nm.as_slice(),
        ) {
            assert(crate::text::views(parts@)[1] == parts@[1]@);
            assert(crate::text::views(parts@).last() == parts@[n - 1]@);
            match &files[i].data {
                Some(d) => {
                    let folder = crate::text::copy_chars(parts[0].as_slice());
                    let bytes = copy_bytes(d.as_slice());
                    assert(crate::text::views(parts@)[0] == parts@[0]@);
                    set_byte_entry(&mut out, folder, bytes);
                },
                None => {},
            }
        } else {
            proof {
                if n >= 3 {
                    assert(crate::text::views(parts@)[1] == parts@[1]@);
                    assert(crate::text::views(parts@).last() == parts@[n - 1]@);
                }
            }
        }
        i = i + 1;
    }
    assert(fs.take(files@.len() as int) =~= fs);
    out
}

/// `o`'s sequence, or the empty one.
pub open spec fn opt_or_empty<T>(o: Option<Seq<T>>) -> Seq<T> {
    match o {
        Some(s) => s,
        None => Seq::empty(),
    }
}

/// A copy of the strings `v`.
pub fn copy_strings(v: &Vec<String>) -> (r: Vec<String>)
    ensures
        crate::text::string_views(r@) == crate::text::string_views(v@),
{
    let mut r: Vec<String> = Vec::new();
    let mut i: usize = 0;
    while i < v.len()
        invariant
            i <= v@.len(),
            crate::text::string_views(r@) == crate::text::string_views(v@).take(i as int),
        decreases v@.len() - i,
    {
        let s = v[i].clone();
        proof {
            crate::text::lemma_string_views_push(r@, s);
        }
        r.push(s);
        assert(crate::text::string_views(r@) =~= crate::text::string_views(v@).take(i + 1));
        i = i + 1;
    }
    assert(crate::text::string_views(v@).take(v@.len() as int) =~= crate::text::string_views(v@));
    r
}

} // verus!
