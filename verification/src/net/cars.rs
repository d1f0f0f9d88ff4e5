//! The car catalogue of an instance: the car folders on the host, their
//! skins, and the `ui_car.json` and `badge.png` files of their `ui`
//! folders, merged into one list sorted by name.
use vstd::prelude::*;
use crate::net::catalog::{
    archive_files, archive_listing, copy_strings, json_name, json_text_of, key_position, kv_get,
    kv_set, lemma_first_index, lemma_no_index, keys_of, opt_string_view, png_data_uri,
    png_data_uri_of, ui_file_entries, ui_file_map, ui_json_text, json_doc_name, byte_entries,
    opt_or_empty,
};
use crate::net::{dir_entry, directory_list, parse_directory_list};
use crate::order::{is_stable_sort, sorted_order, stably_sorted};
use crate::text::{
    append_str, chars_eq, chars_to_string, lemma_views_push, lines, lines_chars, split_char,
    split_chars, str_chars, string_views, strip_prefixes_chars, trim_chars, views,
};

verus! {

// ------------------------------------------------------------------
// Commands
// ------------------------------------------------------------------

/// The folder of the cars of instance `id`.
pub open spec fn cars_dir(id: Seq<char>) -> Seq<char> {
    "$HOME/ac-manager/instances/"@ + id + "/ac_files/content/cars"@
}

/// The command that lists the car folders of instance `id`.
pub fn car_dirs_command(id: &str) -> (r: String)
    ensures
        r@ == "cd "@ + cars_dir(id@) + " && find . -maxdepth 1 -mindepth 1 -type d"@,
{
    let mut s = String::new();
    append_str(&mut s, "cd $HOME/ac-manager/instances/");
    append_str(&mut s, id);
    append_str(&mut s, "/ac_files/content/cars && find . -maxdepth 1 -mindepth 1 -type d");
    proof {
        reveal_strlit("cd $HOME/ac-manager/instances/");
        reveal_strlit("/ac_files/content/cars && find . -maxdepth 1 -mindepth 1 -type d");
        reveal_strlit("cd ");
        reveal_strlit("$HOME/ac-manager/instances/");
        reveal_strlit("/ac_files/content/cars");
        reveal_strlit(" && find . -maxdepth 1 -mindepth 1 -type d");
    }
    assert(s@ =~= "cd "@ + cars_dir(id@) + " && find . -maxdepth 1 -mindepth 1 -type d"@);
    s
}

/// The command that lists the skin folders of the cars of instance `id`.
pub fn car_skins_command(id: &str) -> (r: String)
    ensures
        r@ == "cd "@ + cars_dir(id@)
            + " && find . -mindepth 3 -maxdepth 3 -type d -path '*/skins/*'"@,
{
    let mut s = String::new();
    append_str(&mut s, "cd $HOME/ac-manager/instances/");
    append_str(&mut s, id);
    append_str(
        &mut s,
        "/ac_files/content/cars && find . -mindepth 3 -maxdepth 3 -type d -path '*/skins/*'",
    );
    proof {
        reveal_strlit("cd $HOME/ac-manager/instances/");
        reveal_strlit(
            "/ac_files/content/cars && find . -mindepth 3 -maxdepth 3 -type d -path '*/skins/*'",
        );
        reveal_strlit("cd ");
        reveal_strlit("$HOME/ac-manager/instances/");
        reveal_strlit("/ac_files/content/cars");
        reveal_strlit(" && find . -mindepth 3 -maxdepth 3 -type d -path '*/skins/*'");
    }
    assert(s@ =~= "cd "@ + cars_dir(id@)
        + " && find . -mindepth 3 -maxdepth 3 -type d -path '*/skins/*'"@);
    s
}

/// The command that prints, as base64, a gzip-compressed tar archive of
/// the `ui_car.json` and `badge.png` files of the cars of instance `id`.
pub fn car_archive_command(id: &str) -> (r: String)
    ensures
        r@ == "cd "@ + cars_dir(id@)
            + " && find . -path '*/ui/*' -type f \\( -name 'ui_car.json' -o -name 'badge.png' \\) | tar czf - -T - | base64 -w 0"@,
{
    let mut s = String::new();
    append_str(&mut s, "cd $HOME/ac-manager/instances/");
    append_str(&mut s, id);
    append_str(
        &mut s,
        "/ac_files/content/cars && find . -path '*/ui/*' -type f \\( -name 'ui_car.json' -o -name 'badge.png' \\) | tar czf - -T - | base64 -w 0",
    );
    proof {
        reveal_strlit("cd $HOME/ac-manager/instances/");
        reveal_strlit(
            "/ac_files/content/cars && find . -path '*/ui/*' -type f \\( -name 'ui_car.json' -o -name 'badge.png' \\) | tar czf - -T - | base64 -w 0",
        );
        reveal_strlit("cd ");
        reveal_strlit("$HOME/ac-manager/instances/");
        reveal_strlit("/ac_files/content/cars");
        reveal_strlit(
            " && find . -path '*/ui/*' -type f \\( -name 'ui_car.json' -o -name 'badge.png' \\) | tar czf - -T - | base64 -w 0",
        );
    }
    assert(s@ =~= "cd "@ + cars_dir(id@)
        + " && find . -path '*/ui/*' -type f \\( -name 'ui_car.json' -o -name 'badge.png' \\) | tar czf - -T - | base64 -w 0"@);
    s
}

/// The folder of car `folder` of instance `id`, which deleting the car
/// removes.
pub fn car_folder_path(id: &str, folder: &str) -> (r: String)
    ensures
        r@ == cars_dir(id@) + "/"@ + folder@,
{
    let mut s = String::new();
    append_str(&mut s, "$HOME/ac-manager/instances/");
    append_str(&mut s, id);
    append_str(&mut s, "/ac_files/content/cars/");
    append_str(&mut s, folder);
    proof {
        reveal_strlit("$HOME/ac-manager/instances/");
        reveal_strlit("/ac_files/content/cars/");
        reveal_strlit("/ac_files/content/cars");
        reveal_strlit("/");
    }
    assert(s@ =~= cars_dir(id@) + "/"@ + folder@);
    s
}

// ------------------------------------------------------------------
// Skins
// ------------------------------------------------------------------

/// The car and skin that a line of the skin listing names:
/// `<car>/skins/<skin>`.
pub open spec fn skin_of(line: Seq<char>) -> Option<(Seq<char>, Seq<char>)> {
    let parts = split_char(dir_entry(line), '/');
    if dir_entry(line).len() > 0 && parts.len() == 3 && parts[1] == "skins"@ {
        Some((parts[0], parts[2]))
    } else {
        None
    }
}

/// The skins that `m` lists for car `car`.
pub open spec fn skins_under(m: Seq<(Seq<char>, Seq<Seq<char>>)>, car: Seq<char>) -> Seq<Seq<char>> {
    opt_or_empty(kv_get(m, car))
}

/// The skins of the listing lines `ls`, by car, in the order in which
/// the cars and their skins first appear.
pub open spec fn skins_of_lines(ls: Seq<Seq<char>>) -> Seq<(Seq<char>, Seq<Seq<char>>)>
    decreases ls.len(),
{
    if ls.len() == 0 {
        Seq::empty()
    } else {
        let prev = skins_of_lines(ls.drop_last());
        match skin_of(ls.last()) {
            Some((car, skin)) => kv_set(prev, car, skins_under(prev, car).push(skin)),
            None => prev,
        }
    }
}

/// The skins that a skin listing names, by car.
pub open spec fn car_skins(output: Seq<char>) -> Seq<(Seq<char>, Seq<Seq<char>>)> {
    skins_of_lines(lines(output))
}

pub open spec fn skin_entries(m: Seq<(Vec<char>, Vec<Vec<char>>)>) -> Seq<(Seq<char>, Seq<Seq<char>>)> {
    m.map_values(|e: (Vec<char>, Vec<Vec<char>>)| (e.0@, views(e.1@)))
}

fn add_skin(m: &mut Vec<(Vec<char>, Vec<Vec<char>>)>, car: Vec<char>, skin: Vec<char>)
    ensures
        skin_entries(final(m)@) == kv_set(
            skin_entries(old(m)@),
            car@,
            skins_under(skin_entries(old(m)@), car@).push(skin@),
        ),
{
    let ghost old_m = skin_entries(m@);
    let ghost ks = keys_of(old_m);
    let ghost cv = car@;
    let ghost sv = skin@;
    let pos = key_position(m, car.as_slice());
    match pos {
        Some(i) => {
            proof {
                assert forall|j: int| 0 <= j < i implies ks[j] != cv by {
                    assert(ks[j] == m@[j].0@);
                }
                assert(ks[i as int] == m@[i as int].0@);
                lemma_first_index(ks, cv, i as int);
            }
            let mut e = m.remove(i);
            let ghost before = e.1@;
            proof {
                lemma_views_push(before, skin);
            }
            e.1.push(skin);
            m.insert(i, (car, e.1));
            assert(skin_entries(m@) =~= old_m.update(
                i as int,
                (cv, skins_under(old_m, cv).push(sv)),
            ));
        },
        None => {
            proof {
                assert forall|j: int| 0 <= j < ks.len() implies ks[j] != cv by {
                    assert(ks[j] == m@[j].0@);
                }
                lemma_no_index(ks, cv);
            }
            let mut v: Vec<Vec<char>> = Vec::new();
            v.push(skin);
            assert(views(v@) =~= seq![sv]);
            m.push((car, v));
            assert(skin_entries(m@) =~= old_m.push((cv, Seq::<Seq<char>>::empty().push(sv))));
        },
    }
}

/// The skins that a skin listing names, by car (see `car_skins`).
pub fn car_skins_of(output: &str) -> (r: Vec<(Vec<char>, Vec<Vec<char>>)>)
    ensures
        skin_entries(r@) == car_skins(output@),
{
    let chars = str_chars(output);
    let ls = lines_chars(chars.as_slice());
    let prefix: Vec<char> = vec!['.', '/'];
    let skins_word = str_chars("skins");
    assert(prefix@ =~= seq!['.', '/']);
    let mut out: Vec<(Vec<char>, Vec<Vec<char>>)> = Vec::new();
    let mut i: usize = 0;
    assert(skin_entries(out@) =~= Seq::empty());
    while i < ls.len()
        invariant
            i <= ls.len(),
            prefix@ == seq!['.', '/'],
            skins_word@ == "skins"@,
            skin_entries(out@) == skins_of_lines(views(ls@).take(i as int)),
        decreases ls.len() - i,
    {
        let ghost tk = views(ls@).take(i + 1);
        assert(tk.drop_last() =~= views(ls@).take(i as int));
        assert(tk.last() == ls@[i as int]@);
        let t = trim_chars(ls[i].as_slice());
        let e = strip_prefixes_chars(t.as_slice(), prefix.as_slice());
        let parts = split_chars(e.as_slice(), '/');
        if e.len() > 0 && parts.len() == 3 && chars_eq(parts[1].as_slice(), skins_word.as_slice()) {
            assert(views(parts@)[1] == parts@[1]@);
            assert(views(parts@)[0] == parts@[0]@);
            assert(views(parts@)[2] == parts@[2]@);
            let car = crate::text::copy_chars(parts[0].as_slice());
            let skin = crate::text::copy_chars(parts[2].as_slice());
            add_skin(&mut out, car, skin);
        } else {
            proof {
                if parts.len() == 3 {
                    assert(views(parts@)[1] == parts@[1]@);
                }
            }
        }
        i = i + 1;
    }
    assert(views(ls@).take(ls.len() as int) =~= views(ls@));
    out
}

// ------------------------------------------------------------------
// Catalogue entries
// ------------------------------------------------------------------

/// An entry of the car catalogue. `document` is the JSON text of the
/// car's `ui_car.json` where it parses, to which the fields `car_folder`,
/// `thumbnail_base64` and `skins` are added where it is an object;
/// without one the entry is the object of these fields and `name`.
/// `name` is what the list is sorted by.
pub struct CarItem {
    pub document: Option<String>,
    pub name: String,
    pub car_folder: String,
    pub thumbnail_base64: String,
    pub skins: Vec<String>,
}

pub struct CarItemView {
    pub document: Option<Seq<char>>,
    pub name: Seq<char>,
    pub car_folder: Seq<char>,
    pub thumbnail_base64: Seq<char>,
    pub skins: Seq<Seq<char>>,
}

impl View for CarItem {
    type V = CarItemView;

    open spec fn view(&self) -> CarItemView {
        CarItemView {
            document: opt_string_view(self.document),
            name: self.name@,
            car_folder: self.car_folder@,
            thumbnail_base64: self.thumbnail_base64@,
            skins: string_views(self.skins@),
        }
    }
}

impl CarItem {
    /// A copy of this entry.
    pub fn duplicate(&self) -> (r: CarItem)
        ensures
            r@ == self@,
    {
        let document = match &self.document {
            Some(d) => Some(d.clone()),
            None => None,
        };
        CarItem {
            document,
            name: self.name.clone(),
            car_folder: self.car_folder.clone(),
            thumbnail_base64: self.thumbnail_base64.clone(),
            skins: copy_strings(&self.skins),
        }
    }
}

pub open spec fn car_item_views(v: Seq<CarItem>) -> Seq<CarItemView> {
    v.map_values(|c: CarItem| c@)
}

pub open spec fn car_item_names(v: Seq<CarItemView>) -> Seq<Seq<char>> {
    v.map_values(|c: CarItemView| c.name)
}

/// A `ui_car.json` of a car folder, with its JSON text and what parsing
/// that text gave (see `json_doc_name`).
pub struct CarDocument {
    pub car_folder: String,
    pub text: String,
    pub parsed_name: Option<Option<String>>,
}

pub open spec fn car_document_view(d: CarDocument) -> (Seq<char>, Seq<char>, Option<Option<Seq<char>>>) {
    (
        d.car_folder@,
        d.text@,
        match d.parsed_name {
            Some(n) => Some(opt_string_view(n)),
            None => None,
        },
    )
}

pub open spec fn car_document_views(v: Seq<CarDocument>) -> Seq<(Seq<char>, Seq<char>, Option<Option<Seq<char>>>)> {
    v.map_values(|d: CarDocument| car_document_view(d))
}

pub open spec fn uri_entries(m: Seq<(Vec<char>, String)>) -> Seq<(Seq<char>, Seq<char>)> {
    m.map_values(|e: (Vec<char>, String)| (e.0@, e.1@))
}

/// The entry of a car with a `ui_car.json`: the parsed document and its
/// name; where the text does not parse, an object named after the folder.
pub open spec fn car_doc_item(
    d: (Seq<char>, Seq<char>, Option<Option<Seq<char>>>),
    badges: Seq<(Seq<char>, Seq<char>)>,
    skins: Seq<(Seq<char>, Seq<Seq<char>>)>,
) -> CarItemView {
    CarItemView {
        document: match d.2 {
            Some(_) => Some(d.1),
            None => None,
        },
        name: match d.2 {
            Some(Some(n)) => n,
            Some(None) => Seq::empty(),
            None => d.0,
        },
        car_folder: d.0,
        thumbnail_base64: opt_or_empty(kv_get(badges, d.0)),
        skins: skins_under(skins, d.0),
    }
}

/// The entry of a car folder without a `ui_car.json`.
pub open spec fn car_fallback_item(dir: Seq<char>, skins: Seq<(Seq<char>, Seq<Seq<char>>)>) -> CarItemView {
    CarItemView {
        document: None,
        name: dir,
        car_folder: dir,
        thumbnail_base64: Seq::empty(),
        skins: skins_under(skins, dir),
    }
}

/// The entries of the folders `dirs` that are not among `folders`, in
/// order.
pub open spec fn car_fallbacks(
    dirs: Seq<Seq<char>>,
    folders: Seq<Seq<char>>,
    skins: Seq<(Seq<char>, Seq<Seq<char>>)>,
) -> Seq<CarItemView>
    decreases dirs.len(),
{
    if dirs.len() == 0 {
        Seq::empty()
    } else {
        let prev = car_fallbacks(dirs.drop_last(), folders, skins);
        if folders.contains(dirs.last()) {
            prev
        } else {
            prev.push(car_fallback_item(dirs.last(), skins))
        }
    }
}

/// The catalogue before sorting: an entry for each `ui_car.json`, then
/// one for each listed folder that has none.
pub open spec fn car_items(
    docs: Seq<(Seq<char>, Seq<char>, Option<Option<Seq<char>>>)>,
    badges: Seq<(Seq<char>, Seq<char>)>,
    skins: Seq<(Seq<char>, Seq<Seq<char>>)>,
    dirs: Seq<Seq<char>>,
) -> Seq<CarItemView> {
    docs.map_values(|d: (Seq<char>, Seq<char>, Option<Option<Seq<char>>>)| car_doc_item(d, badges, skins))
        + car_fallbacks(
        dirs,
        docs.map_values(|d: (Seq<char>, Seq<char>, Option<Option<Seq<char>>>)| d.0),
        skins,
    )
}

fn lookup_uri(m: &Vec<(Vec<char>, String)>, k: &[char]) -> (r: String)
    ensures
        r@ == opt_or_empty(kv_get(uri_entries(m@), k@)),
{
    let ghost ks = keys_of(uri_entries(m@));
    match key_position(m, k) {
        Some(i) => {
            proof {
                assert forall|j: int| 0 <= j < i implies ks[j] != k@ by {
                    assert(ks[j] == m@[j].0@);
                }
                assert(ks[i as int] == m@[i as int].0@);
                lemma_first_index(ks, k@, i as int);
            }
            m[i].1.clone()
        },
        None => {
            proof {
                assert forall|j: int| 0 <= j < ks.len() implies ks[j] != k@ by {
                    assert(ks[j] == m@[j].0@);
                }
                lemma_no_index(ks, k@);
            }
            String::new()
        },
    }
}

fn lookup_skins(m: &Vec<(Vec<char>, Vec<Vec<char>>)>, k: &[char]) -> (r: Vec<String>)
    ensures
        string_views(r@) == skins_under(skin_entries(m@), k@),
{
    let ghost ks = keys_of(skin_entries(m@));
    match key_position(m, k) {
        Some(i) => {
            proof {
                assert forall|j: int| 0 <= j < i implies ks[j] != k@ by {
                    assert(ks[j] == m@[j].0@);
                }
                assert(ks[i as int] == m@[i as int].0@);
                lemma_first_index(ks, k@, i as int);
            }
            crate::text::to_strings(&m[i].1)
        },
        None => {
            proof {
                assert forall|j: int| 0 <= j < ks.len() implies ks[j] != k@ by {
                    assert(ks[j] == m@[j].0@);
                }
                lemma_no_index(ks, k@);
            }
            let r: Vec<String> = Vec::new();
            assert(string_views(r@) =~= Seq::empty());
            r
        },
    }
}

fn doc_item(
    d: &CarDocument,
    badges: &Vec<(Vec<char>, String)>,
    skins: &Vec<(Vec<char>, Vec<Vec<char>>)>,
) -> (r: CarItem)
    ensures
        r@ == car_doc_item(car_document_view(*d), uri_entries(badges@), skin_entries(skins@)),
{
    let folder = str_chars(d.car_folder.as_str());
    let thumb = lookup_uri(badges, folder.as_slice());
    let sk = lookup_skins(skins, folder.as_slice());
    let (document, name) = match &d.parsed_name {
        Some(n) => {
            let nm = match n {
                Some(x) => x.clone(),
                None => String::new(),
            };
            (Some(d.text.clone()), nm)
        },
        None => (None, d.car_folder.clone()),
    };
    CarItem { document, name, car_folder: d.car_folder.clone(), thumbnail_base64: thumb, skins: sk }
}

fn has_folder(docs: &Vec<CarDocument>, dir: &str) -> (r: bool)
    ensures
        r == car_document_views(docs@).map_values(
            |d: (Seq<char>, Seq<char>, Option<Option<Seq<char>>>)| d.0,
        ).contains(dir@),
{
    let ghost fs = car_document_views(docs@).map_values(
        |d: (Seq<char>, Seq<char>, Option<Option<Seq<char>>>)| d.0,
    );
    let dv = str_chars(dir);
    let mut i: usize = 0;
    while i < docs.len()
        invariant
            i <= docs@.len(),
            dv@ == dir@,
            fs == car_document_views(docs@).map_values(
                |d: (Seq<char>, Seq<char>, Option<Option<Seq<char>>>)| d.0,
            ),
            forall|j: int| 0 <= j < i ==> fs[j] != dir@,
        decreases docs@.len() - i,
    {
        let f = str_chars(docs[i].car_folder.as_str());
        if chars_eq(f.as_slice(), dv.as_slice()) {
            assert(fs[i as int] == dir@);
            return true;
        }
        assert(fs[i as int] == docs@[i as int].car_folder@);
        i = i + 1;
    }
    false
}

/// The sorted car catalogue of the parsed `ui_car.json` files `docs`, the
/// badge data URIs `badges`, the skins `skins` and the listed car folders
/// `dirs`: `car_items` stably sorted by name.
pub fn build_car_catalog(
    docs: &Vec<CarDocument>,
    badges: &Vec<(Vec<char>, String)>,
    skins: &Vec<(Vec<char>, Vec<Vec<char>>)>,
    dirs: &Vec<String>,
) -> (r: Vec<CarItem>)
    ensures
        is_stable_sort(
            car_item_views(r@),
            car_items(
                car_document_views(docs@),
                uri_entries(badges@),
                skin_entries(skins@),
                string_views(dirs@),
            ),
            car_item_names(
                car_items(
                    car_document_views(docs@),
                    uri_entries(badges@),
                    skin_entries(skins@),
                    string_views(dirs@),
                ),
            ),
        ),
{
    let ghost dv = car_document_views(docs@);
    let ghost bv = uri_entries(badges@);
    let ghost sv = skin_entries(skins@);
    let ghost folders = dv.map_values(|d: (Seq<char>, Seq<char>, Option<Option<Seq<char>>>)| d.0);
    let ghost doc_items = dv.map_values(
        |d: (Seq<char>, Seq<char>, Option<Option<Seq<char>>>)| car_doc_item(d, bv, sv),
    );
    let mut items: Vec<CarItem> = Vec::new();
    let mut i: usize = 0;
    while i < docs.len()
        invariant
            i <= docs@.len(),
            dv == car_document_views(docs@),
            bv == uri_entries(badges@),
            sv == skin_entries(skins@),
            doc_items == dv.map_values(
                |d: (Seq<char>, Seq<char>, Option<Option<Seq<char>>>)| car_doc_item(d, bv, sv),
            ),
            car_item_views(items@) == doc_items.take(i as int),
        decreases docs@.len() - i,
    {
        let it = doc_item(&docs[i], badges, skins);
        assert(dv[i as int] == car_document_view(docs@[i as int]));
        assert(doc_items[i as int] == car_doc_item(dv[i as int], bv, sv));
        let ghost before = car_item_views(items@);
        items.push(it);
        assert(car_item_views(items@) == before.push(it@));
        assert(car_item_views(items@) =~= doc_items.take(i + 1));
        i = i + 1;
    }
    assert(doc_items.take(docs@.len() as int) =~= doc_items);
    let ghost dirs_v = string_views(dirs@);
    let mut k: usize = 0;
    while k < dirs.len()
        invariant
            k <= dirs@.len(),
            dv == car_document_views(docs@),
            sv == skin_entries(skins@),
            dirs_v == string_views(dirs@),
            folders == dv.map_values(|d: (Seq<char>, Seq<char>, Option<Option<Seq<char>>>)| d.0),
            car_item_views(items@) == doc_items + car_fallbacks(
                dirs_v.take(k as int),
                folders,
                sv,
            ),
        decreases dirs@.len() - k,
    {
        let ghost tk = dirs_v.take(k + 1);
        assert(tk.drop_last() =~= dirs_v.take(k as int));
        assert(tk.last() == dirs@[k as int]@);
        if !has_folder(docs, dirs[k].as_str()) {
            let d = dirs[k].clone();
            let dchars = str_chars(d.as_str());
            let sk = lookup_skins(skins, dchars.as_slice());
            let it = CarItem {
                document: None,
                name: d.clone(),
                car_folder: d,
                thumbnail_base64: String::new(),
                skins: sk,
            };
            let ghost before = car_item_views(items@);
            items.push(it);
            assert(car_item_views(items@) =~= before.push(
                car_fallback_item(dirs@[k as int]@, sv),
            ));
        }
        k = k + 1;
    }
    assert(dirs_v.take(dirs@.len() as int) =~= dirs_v);
    let ghost all = car_item_views(items@);
    assert(all == car_items(dv, bv, sv, dirs_v));
    // sort by name, stably
    let mut names: Vec<Vec<char>> = Vec::new();
    let mut j: usize = 0;
    while j < items.len()
        invariant
            j <= items@.len(),
            all == car_item_views(items@),
            views(names@) == car_item_names(all).take(j as int),
        decreases items@.len() - j,
    {
        let nm = str_chars(items[j].name.as_str());
        proof {
            lemma_views_push(names@, nm);
        }
        names.push(nm);
        assert(views(names@) =~= car_item_names(all).take(j + 1));
        j = j + 1;
    }
    assert(car_item_names(all).take(items@.len() as int) =~= car_item_names(all));
    assert(views(names@) == names@.map_values(|k: Vec<char>| k@));
    let order = sorted_order(&names);
    let mut out: Vec<CarItem> = Vec::new();
    let mut m: usize = 0;
    while m < order.len()
        invariant
            m <= order@.len(),
            order@.len() == items@.len(),
            all == car_item_views(items@),
            forall|q: int| 0 <= q < order@.len() ==> order@[q] < items@.len(),
            out@.len() == m,
            forall|q: int| 0 <= q < m ==> car_item_views(out@)[q] == all[order@[q] as int],
        decreases order@.len() - m,
    {
        let it = items[order[m]].duplicate();
        let ghost old_out = out@;
        assert(it@ == all[order@[m as int] as int]);
        out.push(it);
        proof {
            assert forall|q: int| 0 <= q < m + 1 implies car_item_views(out@)[q]
                == all[order@[q] as int] by {
                assert(car_item_views(out@)[q] == out@[q]@);
                if q < m {
                    assert(out@[q] == old_out[q]);
                    assert(car_item_views(old_out)[q] == old_out[q]@);
                }
            }
        }
        m = m + 1;
    }
    assert(stably_sorted(car_item_names(all), order@));
    out
}

// ------------------------------------------------------------------
// The catalogue of an instance
// ------------------------------------------------------------------

/// The `ui_car.json` files of the archive files `listing`, by car folder,
/// with their JSON text and what parsing it gave.
pub open spec fn car_documents(listing: Seq<(Seq<char>, Option<Seq<u8>>)>) -> Seq<
    (Seq<char>, Seq<char>, Option<Option<Seq<char>>>),
> {
    ui_file_map(listing, "ui_car.json"@).map_values(
        |e: (Seq<char>, Seq<u8>)| (e.0, ui_json_text(e.1), json_doc_name(ui_json_text(e.1))),
    )
}

/// The `badge.png` files of the archive files `listing`, by car folder,
/// as data URIs.
pub open spec fn car_badges(listing: Seq<(Seq<char>, Option<Seq<u8>>)>) -> Seq<(Seq<char>, Seq<char>)> {
    ui_file_map(listing, "badge.png"@).map_values(|e: (Seq<char>, Seq<u8>)| (e.0, png_data_uri(e.1)))
}

/// The car catalogue, before sorting, of an instance whose car folders
/// were listed as `dirs_output`, whose skin folders were listed as
/// `skins_output`, and whose archive of `ui` files was printed as
/// `archive_output` with the exit status `archive_status`.
pub open spec fn car_catalog(
    dirs_output: Seq<char>,
    skins_output: Seq<char>,
    archive_output: Seq<char>,
    archive_status: i32,
) -> Seq<CarItemView> {
    let listing = archive_listing(archive_output, archive_status);
    car_items(
        car_documents(listing),
        car_badges(listing),
        car_skins(skins_output),
        directory_list(dirs_output),
    )
}

/// The car catalogue of an instance, sorted by name, from what the
/// commands `car_dirs_command`, `car_skins_command` and
/// `car_archive_command` printed (see `car_catalog`).
pub fn fetch_cars(
    dirs_output: &str,
    skins_output: &str,
    archive_output: &str,
    archive_status: i32,
) -> (r: Vec<CarItem>)
    ensures
        is_stable_sort(
            car_item_views(r@),
            car_catalog(dirs_output@, skins_output@, archive_output@, archive_status),
            car_item_names(car_catalog(dirs_output@, skins_output@, archive_output@, archive_status)),
        ),
{
    let dirs = parse_directory_list(dirs_output);
    let skins = car_skins_of(skins_output);
    let files = archive_files(archive_output, archive_status);
    let ghost listing = archive_listing(archive_output@, archive_status);
    let raw_docs = ui_file_entries(&files, "ui_car.json");
    let raw_badges = ui_file_entries(&files, "badge.png");
    let ghost rd = byte_entries(raw_docs@);
    let ghost rb = byte_entries(raw_badges@);
    let mut docs: Vec<CarDocument> = Vec::new();
    let mut i: usize = 0;
    while i < raw_docs.len()
        invariant
            i <= raw_docs@.len(),
            rd == byte_entries(raw_docs@),
            car_document_views(docs@) == rd.map_values(
                |e: (Seq<char>, Seq<u8>)| (e.0, ui_json_text(e.1), json_doc_name(ui_json_text(e.1))),
            ).take(i as int),
        decreases raw_docs@.len() - i,
    {
        let text = json_text_of(raw_docs[i].1.as_slice());
        let parsed = json_name(text.as_str());
        let folder = chars_to_string(raw_docs[i].0.as_slice());
        let d = CarDocument { car_folder: folder, text, parsed_name: parsed };
        assert(rd[i as int] == (raw_docs@[i as int].0@, raw_docs@[i as int].1@));
        assert(car_document_view(d) == (rd[i as int].0, ui_json_text(rd[i as int].1), json_doc_name(
            ui_json_text(rd[i as int].1),
        )));
        let ghost before = car_document_views(docs@);
        docs.push(d);
        assert(car_document_views(docs@) == before.push(car_document_view(d)));
        assert(car_document_views(docs@) =~= rd.map_values(
            |e: (Seq<char>, Seq<u8>)| (e.0, ui_json_text(e.1), json_doc_name(ui_json_text(e.1))),
        ).take(i + 1));
        i = i + 1;
    }
    let mut badges: Vec<(Vec<char>, String)> = Vec::new();
    let mut b: usize = 0;
    while b < raw_badges.len()
        invariant
            b <= raw_badges@.len(),
            rb == byte_entries(raw_badges@),
            uri_entries(badges@) == rb.map_values(
                |e: (Seq<char>, Seq<u8>)| (e.0, png_data_uri(e.1)),
            ).take(b as int),
        decreases raw_badges@.len() - b,
    {
        let uri = png_data_uri_of(raw_badges[b].1.as_slice());
        let folder = crate::text::copy_chars(raw_badges[b].0.as_slice());
        assert(rb[b as int] == (raw_badges@[b as int].0@, raw_badges@[b as int].1@));
        let ghost before = uri_entries(badges@);
        badges.push((folder, uri));
        assert(uri_entries(badges@) == before.push((rb[b as int].0, png_data_uri(rb[b as int].1))));
        assert(uri_entries(badges@) =~= rb.map_values(
            |e: (Seq<char>, Seq<u8>)| (e.0, png_data_uri(e.1)),
        ).take(b + 1));
        b = b + 1;
    }
    proof {
        reveal_strlit("ui_car.json");
        reveal_strlit("badge.png");
    }
    assert(rd.map_values(
        |e: (Seq<char>, Seq<u8>)| (e.0, ui_json_text(e.1), json_doc_name(ui_json_text(e.1))),
    ).take(raw_docs@.len() as int) =~= car_documents(listing));
    assert(rb.map_values(|e: (Seq<char>, Seq<u8>)| (e.0, png_data_uri(e.1))).take(
        raw_badges@.len() as int,
    ) =~= car_badges(listing));
    build_car_catalog(&docs, &badges, &skins, &dirs)
}

// ------------------------------------------------------------------
// What the catalogue holds
// ------------------------------------------------------------------

proof fn lemma_fallbacks_cover(
    dirs: Seq<Seq<char>>,
    folders: Seq<Seq<char>>,
    skins: Seq<(Seq<char>, Seq<Seq<char>>)>,
)
    ensures
        forall|k: int|
            0 <= k < dirs.len() && !folders.contains(#[trigger] dirs[k]) ==> exists|i: int|
                0 <= i < car_fallbacks(dirs, folders, skins).len() && car_fallbacks(
                    dirs,
                    folders,
                    skins,
                )[i].car_folder == dirs[k],
    decreases dirs.len(),
{
    if dirs.len() > 0 {
        let prev = car_fallbacks(dirs.drop_last(), folders, skins);
        lemma_fallbacks_cover(dirs.drop_last(), folders, skins);
        let fb = car_fallbacks(dirs, folders, skins);
        assert forall|k: int|
            0 <= k < dirs.len() && !folders.contains(#[trigger] dirs[k]) implies exists|i: int|
                0 <= i < fb.len() && fb[i].car_folder == dirs[k] by {
            if k < dirs.len() - 1 {
                assert(dirs.drop_last()[k] == dirs[k]);
                let i = choose|i: int| 0 <= i < prev.len() && prev[i].car_folder == dirs.drop_last()[k];
                assert(fb[i] == prev[i]);
            } else {
                assert(fb[prev.len() as int].car_folder == dirs[k]);
            }
        }
    }
}

/// Every car folder that the listing names, and every car folder with a
/// `ui_car.json`, has an entry in the sorted catalogue.
pub proof fn lemma_catalog_lists_every_car(
    dirs_output: Seq<char>,
    skins_output: Seq<char>,
    archive_output: Seq<char>,
    archive_status: i32,
    out: Seq<CarItemView>,
)
    requires
        is_stable_sort(
            out,
            car_catalog(dirs_output, skins_output, archive_output, archive_status),
            car_item_names(car_catalog(dirs_output, skins_output, archive_output, archive_status)),
        ),
    ensures
        forall|k: int|
            0 <= k < directory_list(dirs_output).len() ==> exists|i: int|
                0 <= i < out.len() && out[i].car_folder == #[trigger] directory_list(dirs_output)[k],
        forall|k: int|
            0 <= k < car_documents(archive_listing(archive_output, archive_status)).len() ==> exists|i: int|
                0 <= i < out.len() && out[i].car_folder == (#[trigger] car_documents(
                    archive_listing(archive_output, archive_status),
                )[k]).0,
{
    let listing = archive_listing(archive_output, archive_status);
    let docs = car_documents(listing);
    let badges = car_badges(listing);
    let skins = car_skins(skins_output);
    let dirs = directory_list(dirs_output);
    let cat = car_catalog(dirs_output, skins_output, archive_output, archive_status);
    let folders = docs.map_values(|d: (Seq<char>, Seq<char>, Option<Option<Seq<char>>>)| d.0);
    crate::order::lemma_stable_sort_keeps_items(out, cat, car_item_names(cat));
    lemma_fallbacks_cover(dirs, folders, skins);
    assert forall|k: int| 0 <= k < docs.len() implies exists|i: int|
        0 <= i < out.len() && out[i].car_folder == (#[trigger] docs[k]).0 by {
        assert(cat[k] == car_doc_item(docs[k], badges, skins));
        assert(out.contains(cat[k]));
    }
    assert forall|k: int| 0 <= k < dirs.len() implies exists|i: int|
        0 <= i < out.len() && out[i].car_folder == #[trigger] dirs[k] by {
        if folders.contains(dirs[k]) {
            let j = choose|j: int| 0 <= j < folders.len() && folders[j] == dirs[k];
            assert(cat[j] == car_doc_item(docs[j], badges, skins));
            assert(out.contains(cat[j]));
        } else {
            let fb = car_fallbacks(dirs, folders, skins);
            let f = choose|f: int| 0 <= f < fb.len() && fb[f].car_folder == dirs[k];
            assert(cat[docs.len() + f] == fb[f]);
            assert(out.contains(cat[docs.len() + f]));
        }
    }
}

} // verus!
