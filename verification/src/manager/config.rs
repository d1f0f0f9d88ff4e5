//! The AC server's configuration: the instance description and the two
//! INI files (`server_cfg.ini`, `entry_list.ini`), read, edited, written
//! and checked with the `ini` crate.
use vstd::prelude::*;
use crate::decimal::{decimal, fmt_decimal, parse_decimal, parse_unsigned};
use crate::manager::error::{IniParseError, ServerManagerError};
use crate::text::{append_chars, append_str, starts_with, str_chars, trim, trim_chars};

verus! {

/// The description of an instance on the remote server, as stored in
/// its `.manager_config.json`.
pub struct ServerInstanceConfig {
    pub instance_id: String,
    pub instance_name: String,
    pub steam_username: String,
    pub steam_password: String,
    pub server_port_tcp: u16,
    pub server_port_udp: u16,
    pub http_port: u16,
    pub ac_branch: Option<String>,
}

#[verifier::external_type_specification]
#[verifier::external_body]
pub struct ExIni(ini::Ini);

/// The sections of an INI document in order, each with its name (`None`
/// for the general section) and its key-value pairs in order, as the
/// `ini` crate holds them (a section name may occur more than once, and
/// so may a key within a section).
pub uninterp spec fn ini_entries(doc: ini::Ini) -> Seq<(Option<Seq<char>>, Seq<(Seq<char>, Seq<char>)>)>;

/// What `Ini::load_from_str` makes of a text: the document's entries, or
/// the line, column and message of the parse error.
pub uninterp spec fn ini_load(content: Seq<char>) -> Result<
    Seq<(Option<Seq<char>>, Seq<(Seq<char>, Seq<char>)>)>,
    (usize, usize, Seq<char>),
>;

/// The text that `Ini::write_to` writes for a document with these entries.
pub uninterp spec fn ini_text(entries: Seq<(Option<Seq<char>>, Seq<(Seq<char>, Seq<char>)>)>) -> Seq<
    char,
>;

/// The pairs of the first section named `name`, where there is one.
pub open spec fn first_section(
    e: Seq<(Option<Seq<char>>, Seq<(Seq<char>, Seq<char>)>)>,
    name: Option<Seq<char>>,
) -> Option<Seq<(Seq<char>, Seq<char>)>>
    decreases e.len(),
{
    if e.len() == 0 {
        None
    } else if e[0].0 == name {
        Some(e[0].1)
    } else {
        first_section(e.drop_first(), name)
    }
}

/// The value of the first pair with key `key`, where there is one.
pub open spec fn first_value(props: Seq<(Seq<char>, Seq<char>)>, key: Seq<char>) -> Option<Seq<char>>
    decreases props.len(),
{
    if props.len() == 0 {
        None
    } else if props[0].0 == key {
        Some(props[0].1)
    } else {
        first_value(props.drop_first(), key)
    }
}

/// The value that `Ini::get_from(Some(section), key)` reads: that of the
/// first pair with the key in the first section with the name.
pub open spec fn ini_lookup(
    e: Seq<(Option<Seq<char>>, Seq<(Seq<char>, Seq<char>)>)>,
    section: Seq<char>,
    key: Seq<char>,
) -> Option<Seq<char>> {
    match first_section(e, Some(section)) {
        Some(p) => first_value(p, key),
        None => None,
    }
}

/// The names of the sections (`None` for the general section).
pub open spec fn section_names(e: Seq<(Option<Seq<char>>, Seq<(Seq<char>, Seq<char>)>)>) -> Set<
    Option<Seq<char>>,
> {
    e.map_values(|x: (Option<Seq<char>>, Seq<(Seq<char>, Seq<char>)>)| x.0).to_set()
}

/// `Ini::load_from_str`: the document read from `content`, or the parse
/// error's line, column and message; both as `ini_load` names them.
#[verifier::external_body]
fn ini_load_from_str(content: &str) -> (r: Result<ini::Ini, IniParseError>)
    ensures
        match r {
            Ok(doc) => ini_load(content@) == Ok::<_, (usize, usize, Seq<char>)>(ini_entries(doc)),
            Err(e) => ini_load(content@) == Err::<
                Seq<(Option<Seq<char>>, Seq<(Seq<char>, Seq<char>)>)>,
                _,
            >((e.line, e.col, e.msg@)),
        },
{
    match ini::Ini::load_from_str(content) {
        Ok(doc) => Ok(doc),
        Err(e) => Err(IniParseError { line: e.line, col: e.col, msg: e.msg.to_string() }),
    }
}

/// `Ini::section(Some(name)).is_some()`: whether a section has the name.
#[verifier::external_body]
fn ini_has_section(doc: &ini::Ini, name: &str) -> (r: bool)
    ensures
        r == (first_section(ini_entries(*doc), Some(name@)) is Some),
{
    doc.section(Some(name)).is_some()
}

/// `Ini::get_from(Some(section), key)`: the value of the first pair with
/// the key in the first section with the name.
#[verifier::external_body]
fn ini_get_from(doc: &ini::Ini, section: &str, key: &str) -> (r: Option<String>)
    ensures
        match r {
            Some(v) => ini_lookup(ini_entries(*doc), section@, key@) == Some(v@),
            None => ini_lookup(ini_entries(*doc), section@, key@) is None,
        },
{
    doc.get_from(Some(section), key).map(|v| v.to_string())
}

/// `Ini::sections()`: each section name once (in the order in which the
/// names first came in, which is not stated).
#[verifier::external_body]
fn ini_sections(doc: &ini::Ini) -> (r: Vec<Option<String>>)
    ensures
        r@.map_values(|n: Option<String>| opt_view(n)).no_duplicates(),
        r@.map_values(|n: Option<String>| opt_view(n)).to_set() == section_names(ini_entries(*doc)),
{
    doc.sections().map(|s| s.map(|x| x.to_string())).collect()
}

/// `Ini::with_section(Some(section)).set(key, value)`: afterwards the key
/// reads `value` in that section; every other section and key reads as
/// before; the section names gain `section`.
#[verifier::external_body]
fn ini_set(doc: &mut ini::Ini, section: &str, key: &str, value: &str)
    ensures
        ini_lookup(ini_entries(*final(doc)), section@, key@) == Some(value@),
        forall|s: Seq<char>, k: Seq<char>|
            !(s == section@ && k == key@) ==> #[trigger] ini_lookup(ini_entries(*final(doc)), s, k)
                == ini_lookup(ini_entries(*old(doc)), s, k),
        section_names(ini_entries(*final(doc))) == section_names(ini_entries(*old(doc))).insert(
            Some(section@),
        ),
{
    doc.with_section(Some(section)).set(key, value);
}

/// `Ini::write_to` into memory: the text that `ini_text` names.
#[verifier::external_body]
fn ini_write(doc: &ini::Ini) -> (r: String)
    ensures
        r@ == ini_text(ini_entries(*doc)),
{
    let mut buffer = std::io::Cursor::new(Vec::new());
    doc.write_to(&mut buffer).unwrap();
    String::from_utf8_lossy(&buffer.into_inner()).to_string()
}

/// The characters of an optional string.
pub open spec fn opt_view(n: Option<String>) -> Option<Seq<char>> {
    match n {
        Some(s) => Some(s@),
        None => None,
    }
}

/// The two INI files of an instance.
pub struct IniManager {
    pub server_cfg: ini::Ini,
    pub entry_list: ini::Ini,
}

impl IniManager {
    /// Reads the two files; the first that does not parse gives its error.
    pub fn new(server_cfg_content: &str, entry_list_content: &str) -> (r: Result<
        IniManager,
        ServerManagerError,
    >)
        ensures
            match r {
                Ok(m) => ini_load(server_cfg_content@) == Ok::<_, (usize, usize, Seq<char>)>(
                    ini_entries(m.server_cfg),
                ) && ini_load(entry_list_content@) == Ok::<_, (usize, usize, Seq<char>)>(
                    ini_entries(m.entry_list),
                ),
                Err(ServerManagerError::IniError(p)) => match ini_load(server_cfg_content@) {
                    Err(e) => e == (p.line, p.col, p.msg@),
                    Ok(_) => ini_load(entry_list_content@) == Err::<
                        Seq<(Option<Seq<char>>, Seq<(Seq<char>, Seq<char>)>)>,
                        _,
                    >((p.line, p.col, p.msg@)),
                },
                Err(_) => false,
            },
    {
        let server_cfg = match ini_load_from_str(server_cfg_content) {
            Ok(d) => d,
            Err(e) => {
                return Err(ServerManagerError::IniError(e));
            },
        };
        let entry_list = match ini_load_from_str(entry_list_content) {
            Ok(d) => d,
            Err(e) => {
                return Err(ServerManagerError::IniError(e));
            },
        };
        Ok(IniManager { server_cfg, entry_list })
    }

    /// The text of `server_cfg.ini`.
    pub fn serialize_server_cfg(&self) -> (r: String)
        ensures
            r@ == ini_text(ini_entries(self.server_cfg)),
    {
        ini_write(&self.server_cfg)
    }

    /// The text of `entry_list.ini`.
    pub fn serialize_entry_list(&self) -> (r: String)
        ensures
            r@ == ini_text(ini_entries(self.entry_list)),
    {
        ini_write(&self.entry_list)
    }

    /// Sets `key` to `value` in section `section` of `server_cfg.ini`.
    pub fn update_server_param(&mut self, section: &str, key: &str, value: &str)
        ensures
            ini_lookup(ini_entries(final(self).server_cfg), section@, key@) == Some(value@),
            forall|s: Seq<char>, k: Seq<char>|
                !(s == section@ && k == key@) ==> #[trigger] ini_lookup(
                    ini_entries(final(self).server_cfg),
                    s,
                    k,
                ) == ini_lookup(ini_entries(old(self).server_cfg), s, k),
            section_names(ini_entries(final(self).server_cfg)) == section_names(
                ini_entries(old(self).server_cfg),
            ).insert(Some(section@)),
            ini_entries(final(self).entry_list) == ini_entries(old(self).entry_list),
    {
        ini_set(&mut self.server_cfg, section, key, value);
    }
}

// ------------------------------------------------------------------
// Checking a configuration
// ------------------------------------------------------------------

/// The largest `usize`, as a mathematical integer.
pub open spec fn usize_max() -> nat {
    usize::MAX as nat
}

/// Whether a section name is that of a car slot (`CAR_...`).
pub open spec fn is_car_section(n: Option<Seq<char>>) -> bool {
    n matches Some(s) && starts_with(s, "CAR_"@)
}

/// The number of distinct car slot sections of a document.
pub open spec fn car_count(e: Seq<(Option<Seq<char>>, Seq<(Seq<char>, Seq<char>)>)>) -> nat {
    section_names(e).filter(|n: Option<Seq<char>>| is_car_section(n)).len()
}

/// The name of car slot `i`: `CAR_i`.
pub open spec fn car_section_name(i: nat) -> Seq<char> {
    "CAR_"@ + decimal(i)
}

/// The first of the slots `0..n` that has no section, where one has none.
pub open spec fn first_missing_car(e: Seq<(Option<Seq<char>>, Seq<(Seq<char>, Seq<char>)>)>, n: nat) -> Option<nat>
    decreases n,
{
    if n == 0 {
        None
    } else {
        match first_missing_car(e, (n - 1) as nat) {
            Some(i) => Some(i),
            None => if first_section(e, Some(car_section_name((n - 1) as nat))) is Some {
                None
            } else {
                Some((n - 1) as nat)
            },
        }
    }
}

/// The complaint about port key `key` of the `SERVER` section, where it
/// is missing or not a port number.
pub open spec fn port_error(server: Seq<(Option<Seq<char>>, Seq<(Seq<char>, Seq<char>)>)>, key: Seq<char>) -> Option<Seq<char>> {
    match ini_lookup(server, "SERVER"@, key) {
        None => Some("Missing "@ + key + " in server_cfg.ini"@),
        Some(v) => if parse_unsigned(v, 0xffff) is None {
            Some("Invalid "@ + key + " value"@)
        } else {
            None
        },
    }
}

/// The first problem of a configuration, in the order in which they are
/// looked for, or `None` where it has none: the `SERVER` section, its
/// `MAX_CLIENTS` (a number), its `UDP_PORT`, `TCP_PORT`, `HTTP_PORT`
/// (port numbers), `TRACK`, `CARS` (not blank); then no more car slot
/// sections in the entry list than `MAX_CLIENTS`, and slots numbered
/// from 0 without a gap.
pub open spec fn validation_error(
    server: Seq<(Option<Seq<char>>, Seq<(Seq<char>, Seq<char>)>)>,
    entries: Seq<(Option<Seq<char>>, Seq<(Seq<char>, Seq<char>)>)>,
) -> Option<Seq<char>> {
    if first_section(server, Some("SERVER"@)) is None {
        Some("Missing [SERVER] section in server_cfg.ini"@)
    } else {
        match ini_lookup(server, "SERVER"@, "MAX_CLIENTS"@) {
            None => Some("Missing MAX_CLIENTS in server_cfg.ini"@),
            Some(mc) => match parse_unsigned(mc, usize_max()) {
                None => Some("Invalid MAX_CLIENTS value"@),
                Some(max) => if port_error(server, "UDP_PORT"@) is Some {
                    port_error(server, "UDP_PORT"@)
                } else if port_error(server, "TCP_PORT"@) is Some {
                    port_error(server, "TCP_PORT"@)
                } else if port_error(server, "HTTP_PORT"@) is Some {
                    port_error(server, "HTTP_PORT"@)
                } else if ini_lookup(server, "SERVER"@, "TRACK"@) is None {
                    Some("Missing TRACK in server_cfg.ini"@)
                } else {
                    match ini_lookup(server, "SERVER"@, "CARS"@) {
                        None => Some("Missing CARS in server_cfg.ini"@),
                        Some(cars) => if trim(cars).len() == 0 {
                            Some("CARS list cannot be empty"@)
                        } else if car_count(entries) > max {
                            Some(
                                "More cars in entry_list ("@ + decimal(car_count(entries))
                                    + ") than MAX_CLIENTS ("@ + decimal(max) + ")"@,
                            )
                        } else {
                            match first_missing_car(entries, car_count(entries)) {
                                Some(i) => Some(
                                    "Missing contiguous section ["@ + car_section_name(i)
                                        + "] in entry_list.ini"@,
                                ),
                                None => None,
                            }
                        },
                    }
                },
            },
        }
    }
}

fn concat3(a: &str, b: &[char], c: &str) -> (r: String)
    ensures
        r@ == a@ + b@ + c@,
{
    let mut r = String::new();
    append_str(&mut r, a);
    append_chars(&mut r, b);
    append_str(&mut r, c);
    r
}

fn check_port(server: &ini::Ini, key: &str) -> (r: Option<String>)
    ensures
        match r {
            Some(m) => port_error(ini_entries(*server), key@) == Some(m@),
            None => port_error(ini_entries(*server), key@) is None,
        },
{
    match ini_get_from(server, "SERVER", key) {
        None => Some(concat3("Missing ", str_chars(key).as_slice(), " in server_cfg.ini")),
        Some(v) => {
            let chars = str_chars(v.as_str());
            match parse_decimal(chars.as_slice(), 0xffff) {
                None => Some(concat3("Invalid ", str_chars(key).as_slice(), " value")),
                Some(_) => None,
            }
        },
    }
}

/// The number of distinct car slot sections of `doc`.
fn count_car_sections(doc: &ini::Ini) -> (r: usize)
    ensures
        r as nat == car_count(ini_entries(*doc)),
{
    let names = ini_sections(doc);
    let ghost nv = names@.map_values(|n: Option<String>| opt_view(n));
    let car = str_chars("CAR_");
    let mut cars: Vec<Option<String>> = Vec::new();
    let mut count: usize = 0;
    let mut i: usize = 0;
    while i < names.len()
        invariant
            i <= names.len(),
            car@ == "CAR_"@,
            nv == names@.map_values(|n: Option<String>| opt_view(n)),
            nv.no_duplicates(),
            count == cars@.len(),
            cars@.len() <= i,
            cars@.map_values(|n: Option<String>| opt_view(n)).no_duplicates(),
            cars@.map_values(|n: Option<String>| opt_view(n)).to_set() == nv.take(
                i as int,
            ).to_set().filter(|n: Option<Seq<char>>| is_car_section(n)),
            forall|t: int|
                0 <= t < cars@.len() ==> exists|u: int|
                    0 <= u < i && #[trigger] opt_view(cars@[t]) == nv[u],
        decreases names.len() - i,
    {
        let ghost cv = cars@.map_values(|n: Option<String>| opt_view(n));
        let ghost x = nv[i as int];
        assert(nv.take(i + 1) =~= nv.take(i as int).push(x));
        proof {
            nv.take(i as int).lemma_push_to_set_commute(x);
        }
        let is_car = match &names[i] {
            Some(s) => {
                let sc = str_chars(s.as_str());
                crate::text::chars_starts_with(sc.as_slice(), car.as_slice())
            },
            None => false,
        };
        assert(is_car == is_car_section(x));
        if is_car {
            let n = match &names[i] {
                Some(s) => Some(s.clone()),
                None => None,
            };
            assert(opt_view(n) == x);
            proof {
                assert forall|t: int| 0 <= t < cv.len() implies cv[t] != x by {
                    let u = choose|u: int| 0 <= u < i && #[trigger] opt_view(cars@[t]) == nv[u];
                    assert(cv[t] == opt_view(cars@[t]));
                }
            }
            cars.push(n);
            count = count + 1;
            assert(cars@.map_values(|n: Option<String>| opt_view(n)) =~= cv.push(x));
            proof {
                cv.lemma_push_to_set_commute(x);
            }
            assert(nv.take(i + 1).to_set().filter(|n: Option<Seq<char>>| is_car_section(n))
                =~= nv.take(i as int).to_set().filter(|n: Option<Seq<char>>| is_car_section(n)).insert(x));
            assert forall|t: int|
                0 <= t < cars@.len() implies exists|u: int|
                    0 <= u < i + 1 && #[trigger] opt_view(cars@[t]) == nv[u] by {
                if t == cars@.len() - 1 {
                    assert(opt_view(cars@[t]) == nv[i as int]);
                } else {
                    let u = choose|u: int| 0 <= u < i && #[trigger] opt_view(cars@[t]) == nv[u];
                    assert(opt_view(cars@[t]) == nv[u]);
                }
            }
        } else {
            assert(nv.take(i + 1).to_set().filter(|n: Option<Seq<char>>| is_car_section(n))
                =~= nv.take(i as int).to_set().filter(|n: Option<Seq<char>>| is_car_section(n)));
        }
        i = i + 1;
    }
    assert(nv.take(names.len() as int) =~= nv);
    proof {
        cars@.map_values(|n: Option<String>| opt_view(n)).unique_seq_to_set();
    }
    count
}

impl IniManager {
    /// Checks the configuration: `Ok` where `validation_error` finds no
    /// problem, else a validation error with the first problem's message.
    #[verifier::loop_isolation(false)]
    pub fn validate(&self) -> (r: Result<(), ServerManagerError>)
        ensures
            match validation_error(ini_entries(self.server_cfg), ini_entries(self.entry_list)) {
                None => r is Ok,
                Some(m) => r matches Err(ServerManagerError::ValidationError(s)) && s@ == m,
            },
    {
        let ghost sv = ini_entries(self.server_cfg);
        let ghost ev = ini_entries(self.entry_list);
        if !ini_has_section(&self.server_cfg, "SERVER") {
            let mut m = String::new();
            append_str(&mut m, "Missing [SERVER] section in server_cfg.ini");
            return Err(ServerManagerError::ValidationError(m));
        }
        let max_clients = match ini_get_from(&self.server_cfg, "SERVER", "MAX_CLIENTS") {
            None => {
                let mut m = String::new();
                append_str(&mut m, "Missing MAX_CLIENTS in server_cfg.ini");
                return Err(ServerManagerError::ValidationError(m));
            },
            Some(v) => {
                let chars = str_chars(v.as_str());
                match parse_decimal(chars.as_slice(), usize::MAX as u64) {
                    None => {
                        let mut m = String::new();
                        append_str(&mut m, "Invalid MAX_CLIENTS value");
                        return Err(ServerManagerError::ValidationError(m));
                    },
                    Some(n) => n as usize,
                }
            },
        };
        if let Some(m) = check_port(&self.server_cfg, "UDP_PORT") {
            return Err(ServerManagerError::ValidationError(m));
        }
        if let Some(m) = check_port(&self.server_cfg, "TCP_PORT") {
            return Err(ServerManagerError::ValidationError(m));
        }
        if let Some(m) = check_port(&self.server_cfg, "HTTP_PORT") {
            return Err(ServerManagerError::ValidationError(m));
        }
        if ini_get_from(&self.server_cfg, "SERVER", "TRACK").is_none() {
            let mut m = String::new();
            append_str(&mut m, "Missing TRACK in server_cfg.ini");
            return Err(ServerManagerError::ValidationError(m));
        }
        let cars = match ini_get_from(&self.server_cfg, "SERVER", "CARS") {
            None => {
                let mut m = String::new();
                append_str(&mut m, "Missing CARS in server_cfg.ini");
                return Err(ServerManagerError::ValidationError(m));
            },
            Some(c) => c,
        };
        let cars_chars = str_chars(cars.as_str());
        if trim_chars(cars_chars.as_slice()).len() == 0 {
            let mut m = String::new();
            append_str(&mut m, "CARS list cannot be empty");
            return Err(ServerManagerError::ValidationError(m));
        }
        let n_cars = count_car_sections(&self.entry_list);
        if n_cars > max_clients {
            let mut m = String::new();
            append_str(&mut m, "More cars in entry_list (");
            append_chars(&mut m, fmt_decimal(n_cars as u64).as_slice());
            append_str(&mut m, ") than MAX_CLIENTS (");
            append_chars(&mut m, fmt_decimal(max_clients as u64).as_slice());
            append_str(&mut m, ")");
            return Err(ServerManagerError::ValidationError(m));
        }
        let mut i: usize = 0;
        while i < n_cars
            invariant
                i <= n_cars,
                n_cars as nat == car_count(ini_entries(self.entry_list)),
                first_missing_car(ini_entries(self.entry_list), i as nat) is None,
            decreases n_cars - i,
        {
            let mut name = String::new();
            append_str(&mut name, "CAR_");
            append_chars(&mut name, fmt_decimal(i as u64).as_slice());
            if !ini_has_section(&self.entry_list, name.as_str()) {
                let mut m = String::new();
                append_str(&mut m, "Missing contiguous section [");
                append_str(&mut m, name.as_str());
                append_str(&mut m, "] in entry_list.ini");
                proof {
                    lemma_first_missing_car_after(ini_entries(self.entry_list), i as nat, n_cars as nat);
                }
                return Err(ServerManagerError::ValidationError(m));
            }
            i = i + 1;
        }
        Ok(())
    }
}

proof fn lemma_first_missing_car_after(e: Seq<(Option<Seq<char>>, Seq<(Seq<char>, Seq<char>)>)>, i: nat, n: nat)
    requires
        i < n,
        first_missing_car(e, i) is None,
        first_section(e, Some(car_section_name(i))) is None,
    ensures
        first_missing_car(e, n) == Some(i),
    decreases n,
{
    if n > i + 1 {
        lemma_first_missing_car_after(e, i, (n - 1) as nat);
    }
}

/// The `SERVER` value of `key` is a port number: present, and a numeral
/// no greater than 65535.
pub open spec fn has_port(server: Seq<(Option<Seq<char>>, Seq<(Seq<char>, Seq<char>)>)>, key: Seq<char>) -> bool {
    ini_lookup(server, "SERVER"@, key) matches Some(v) && parse_unsigned(v, 65535) is Some
}

/// Slot `i` of the entry list has its `CAR_i` section.
pub open spec fn has_car_slot(entries: Seq<(Option<Seq<char>>, Seq<(Seq<char>, Seq<char>)>)>, i: nat) -> bool {
    first_section(entries, Some(car_section_name(i))) is Some
}

proof fn lemma_first_missing_car(entries: Seq<(Option<Seq<char>>, Seq<(Seq<char>, Seq<char>)>)>, n: nat)
    ensures
        first_missing_car(entries, n) is None <==> forall|i: nat| i < n ==> #[trigger] has_car_slot(entries, i),
        first_missing_car(entries, n) matches Some(k) ==> k < n && !has_car_slot(entries, k) && forall|i: nat|
            i < k ==> #[trigger] has_car_slot(entries, i),
    decreases n,
{
    if n > 0 {
        let m = (n - 1) as nat;
        lemma_first_missing_car(entries, m);
        if first_missing_car(entries, n) is None {
            assert forall|i: nat| i < n implies #[trigger] has_car_slot(entries, i) by {
                if i < m {
                    assert(has_car_slot(entries, i));
                }
            }
        }
        if forall|i: nat| i < n ==> #[trigger] has_car_slot(entries, i) {
            assert(has_car_slot(entries, m));
            assert forall|i: nat| i < m implies #[trigger] has_car_slot(entries, i) by {
                assert(i < n);
            }
        }
    }
}

/// A configuration passes the check exactly when the `SERVER` section is
/// there and gives a number for `MAX_CLIENTS`, a port number for each of
/// `UDP_PORT`, `TCP_PORT` and `HTTP_PORT`, a `TRACK`, and a non-blank
/// `CARS`, and the entry list has no more car slots than `MAX_CLIENTS`,
/// each of `CAR_0` up to the last slot present.
pub proof fn lemma_valid_config_iff(
    server: Seq<(Option<Seq<char>>, Seq<(Seq<char>, Seq<char>)>)>,
    entries: Seq<(Option<Seq<char>>, Seq<(Seq<char>, Seq<char>)>)>,
)
    ensures
        validation_error(server, entries) is None <==> {
            &&& first_section(server, Some("SERVER"@)) is Some
            &&& has_port(server, "UDP_PORT"@)
            &&& has_port(server, "TCP_PORT"@)
            &&& has_port(server, "HTTP_PORT"@)
            &&& ini_lookup(server, "SERVER"@, "TRACK"@) is Some
            &&& ini_lookup(server, "SERVER"@, "CARS"@) matches Some(c) && trim(c).len() > 0
            &&& ini_lookup(server, "SERVER"@, "MAX_CLIENTS"@) matches Some(m) && parse_unsigned(m, usize_max())
                matches Some(max) && car_count(entries) <= max
            &&& forall|i: nat| i < car_count(entries) ==> #[trigger] has_car_slot(entries, i)
        },
{
    lemma_first_missing_car(entries, car_count(entries));
}

/// The problem reported for a port key `key` of the `SERVER` section,
/// where the section, `MAX_CLIENTS` and the ports checked before it
/// (`UDP_PORT`, then `TCP_PORT`, then `HTTP_PORT`) are valid: a missing
/// key gives `Missing <key> in server_cfg.ini`, a value that is not a
/// port number gives `Invalid <key> value`.
pub proof fn lemma_port_checked(
    server: Seq<(Option<Seq<char>>, Seq<(Seq<char>, Seq<char>)>)>,
    entries: Seq<(Option<Seq<char>>, Seq<(Seq<char>, Seq<char>)>)>,
    key: Seq<char>,
)
    requires
        key == "UDP_PORT"@ || key == "TCP_PORT"@ || key == "HTTP_PORT"@,
        first_section(server, Some("SERVER"@)) is Some,
        ini_lookup(server, "SERVER"@, "MAX_CLIENTS"@) matches Some(m) && parse_unsigned(m, usize_max()) is Some,
        key != "UDP_PORT"@ ==> has_port(server, "UDP_PORT"@),
        key == "HTTP_PORT"@ ==> has_port(server, "TCP_PORT"@),
    ensures
        ini_lookup(server, "SERVER"@, key) is None ==> validation_error(server, entries) == Some(
            "Missing "@ + key + " in server_cfg.ini"@,
        ),
        (ini_lookup(server, "SERVER"@, key) matches Some(v) && parse_unsigned(v, 65535) is None)
            ==> validation_error(server, entries) == Some("Invalid "@ + key + " value"@),
{
}

/// The check of the example of a configuration without `TCP_PORT`: where
/// the `SERVER` section is there with a valid `MAX_CLIENTS` and
/// `UDP_PORT`, a missing `TCP_PORT` gives `Missing TCP_PORT in
/// server_cfg.ini`.
pub proof fn lemma_tcp_port_checked(
    server: Seq<(Option<Seq<char>>, Seq<(Seq<char>, Seq<char>)>)>,
    entries: Seq<(Option<Seq<char>>, Seq<(Seq<char>, Seq<char>)>)>,
)
    requires
        first_section(server, Some("SERVER"@)) is Some,
        ini_lookup(server, "SERVER"@, "MAX_CLIENTS"@) matches Some(m) && parse_unsigned(m, usize_max()) is Some,
        has_port(server, "UDP_PORT"@),
        ini_lookup(server, "SERVER"@, "TCP_PORT"@) is None,
    ensures
        validation_error(server, entries) == Some("Missing TCP_PORT in server_cfg.ini"@),
{
    reveal_strlit("Missing ");
    reveal_strlit(" in server_cfg.ini");
    reveal_strlit("Missing TCP_PORT in server_cfg.ini");
    reveal_strlit("TCP_PORT");
    reveal_strlit("UDP_PORT");
    reveal_strlit("HTTP_PORT");
    assert("TCP_PORT"@[0] != "UDP_PORT"@[0]);
    assert("TCP_PORT"@[0] != "HTTP_PORT"@[0]);
    lemma_port_checked(server, entries, "TCP_PORT"@);
    assert("Missing "@ + "TCP_PORT"@ + " in server_cfg.ini"@ =~= "Missing TCP_PORT in server_cfg.ini"@);
}

/// The number that `MAX_CLIENTS` of the `SERVER` section gives, where it
/// is there and a number.
pub open spec fn max_clients(server: Seq<(Option<Seq<char>>, Seq<(Seq<char>, Seq<char>)>)>) -> Option<nat> {
    match ini_lookup(server, "SERVER"@, "MAX_CLIENTS"@) {
        Some(m) => parse_unsigned(m, usize_max()),
        None => None,
    }
}

/// The `SERVER` section is there, with a number for `MAX_CLIENTS` and a
/// port number for each of `UDP_PORT`, `TCP_PORT` and `HTTP_PORT`.
pub open spec fn server_basics_valid(server: Seq<(Option<Seq<char>>, Seq<(Seq<char>, Seq<char>)>)>) -> bool {
    &&& first_section(server, Some("SERVER"@)) is Some
    &&& max_clients(server) is Some
    &&& has_port(server, "UDP_PORT"@)
    &&& has_port(server, "TCP_PORT"@)
    &&& has_port(server, "HTTP_PORT"@)
}

/// The `SERVER` section names a track and a non-blank list of cars.
pub open spec fn track_and_cars_given(server: Seq<(Option<Seq<char>>, Seq<(Seq<char>, Seq<char>)>)>) -> bool {
    &&& ini_lookup(server, "SERVER"@, "TRACK"@) is Some
    &&& ini_lookup(server, "SERVER"@, "CARS"@) matches Some(c) && trim(c).len() > 0
}

/// The message of each problem, where the problems looked for before it
/// are absent: a missing `[SERVER]` section, a missing or non-numeric
/// `MAX_CLIENTS`, a missing `TRACK` or `CARS`, a blank `CARS`, more car
/// slots than `MAX_CLIENTS` (with both numbers), and the first car slot
/// `k` whose `[CAR_k]` section is missing.
pub proof fn lemma_validation_messages(
    server: Seq<(Option<Seq<char>>, Seq<(Seq<char>, Seq<char>)>)>,
    entries: Seq<(Option<Seq<char>>, Seq<(Seq<char>, Seq<char>)>)>,
)
    ensures
        first_section(server, Some("SERVER"@)) is None ==> validation_error(server, entries) == Some(
            "Missing [SERVER] section in server_cfg.ini"@,
        ),
        first_section(server, Some("SERVER"@)) is Some && ini_lookup(server, "SERVER"@, "MAX_CLIENTS"@) is None
            ==> validation_error(server, entries) == Some("Missing MAX_CLIENTS in server_cfg.ini"@),
        first_section(server, Some("SERVER"@)) is Some && ini_lookup(server, "SERVER"@, "MAX_CLIENTS"@) is Some
            && max_clients(server) is None ==> validation_error(server, entries) == Some(
            "Invalid MAX_CLIENTS value"@,
        ),
        server_basics_valid(server) && ini_lookup(server, "SERVER"@, "TRACK"@) is None ==> validation_error(
            server,
            entries,
        ) == Some("Missing TRACK in server_cfg.ini"@),
        server_basics_valid(server) && ini_lookup(server, "SERVER"@, "TRACK"@) is Some && ini_lookup(
            server,
            "SERVER"@,
            "CARS"@,
        ) is None ==> validation_error(server, entries) == Some("Missing CARS in server_cfg.ini"@),
        server_basics_valid(server) && ini_lookup(server, "SERVER"@, "TRACK"@) is Some && ini_lookup(
            server,
            "SERVER"@,
            "CARS"@,
        ) is Some && !track_and_cars_given(server) ==> validation_error(server, entries) == Some(
            "CARS list cannot be empty"@,
        ),
        forall|mx: nat|
            server_basics_valid(server) && track_and_cars_given(server) && max_clients(server) == Some(mx)
                && car_count(entries) > mx ==> validation_error(server, entries) == Some(
                "More cars in entry_list ("@ + decimal(car_count(entries)) + ") than MAX_CLIENTS ("@ + decimal(mx)
                    + ")"@,
            ),
        forall|k: nat|
            server_basics_valid(server) && track_and_cars_given(server) && (match max_clients(server) {
                Some(mx) => car_count(entries) <= mx,
                None => false,
            }) && k < car_count(entries) && !has_car_slot(entries, k) && (forall|
                i: nat,
            | i < k ==> #[trigger] has_car_slot(entries, i)) ==> validation_error(server, entries) == Some(
                "Missing contiguous section [CAR_"@ + decimal(k) + "] in entry_list.ini"@,
            ),
{
    lemma_first_missing_car(entries, car_count(entries));
    assert forall|k: nat|
        k < car_count(entries) && !has_car_slot(entries, k) && (forall|i: nat| i < k ==> #[trigger] has_car_slot(
            entries,
            i,
        )) implies first_missing_car(entries, car_count(entries)) == Some(k) by {
        match first_missing_car(entries, car_count(entries)) {
            Some(j) => {
                if j < k {
                    assert(has_car_slot(entries, j));
                } else if k < j {
                    assert(has_car_slot(entries, k));
                }
            },
            None => {
                assert(has_car_slot(entries, k));
            },
        }
    }
    assert forall|k: nat| true implies #[trigger] ("Missing contiguous section ["@ + car_section_name(k)
        + "] in entry_list.ini"@) == "Missing contiguous section [CAR_"@ + decimal(k) + "] in entry_list.ini"@ by {
        reveal_strlit("Missing contiguous section [");
        reveal_strlit("Missing contiguous section [CAR_");
        reveal_strlit("CAR_");
        assert("Missing contiguous section ["@ + ("CAR_"@ + decimal(k)) =~= "Missing contiguous section [CAR_"@
            + decimal(k));
    }
}

} // verus!
