//! The state behind the manager's window: the profiles, the values that
//! the window shows, and the buffers through which the background work
//! reports to it. Each operation of the window is a method that says how
//! it changes this state.
use vstd::prelude::*;
use crate::manager::config::{ini_load, validation_error, IniManager};
use crate::manager::error::{error_message, ini_error_text, ServerManagerError};
use crate::manager::profiles::{
    find_by_id, find_profile, profile_views, remove_profiles_with_id, upsert, upsert_profile,
    without_id, ConnectionProfile,
};
use crate::net::catalog::{kv_get, kv_set, keys_of, lemma_first_index, lemma_no_index, opt_or_empty};
use crate::text::append_str;

pub mod setup;
pub mod upload;

verus! {

/// The state of the manager's window.
pub struct ServerManager {
    pub status: String,
    pub profiles_json: String,
    pub missing_dependencies_json: String,
    pub is_connected: bool,
    pub needs_steam_2fa: bool,
    pub server_cfg_content: String,
    pub entry_list_content: String,
    pub tracks_json: String,
    pub cars_json: String,
    pub profiles: Vec<ConnectionProfile>,
    pub bootstrap_log_buffer: String,
    pub process_logs: Vec<(String, String)>,
    pub latest_stats_json: String,
    pub pending_2fa_request: bool,
    pub fetched_server_cfg: Option<String>,
    pub fetched_entry_list: Option<String>,
    pub config_save_status: Option<String>,
    pub fetched_tracks: Option<String>,
    pub track_upload_status: String,
    pub track_upload_logs: String,
    pub fetched_cars: Option<String>,
    pub car_upload_status: String,
    pub car_upload_logs: String,
}

/// The logs of the processes, by log id.
pub open spec fn log_entries(m: Seq<(String, String)>) -> Seq<(Seq<char>, Seq<char>)> {
    m.map_values(|e: (String, String)| (e.0@, e.1@))
}

fn text(s: &str) -> (r: String)
    ensures
        r@ == s@,
{
    let mut r = String::new();
    append_str(&mut r, s);
    r
}

/// The text that `s` holds, leaving `s` empty.
fn take_text(s: &mut String) -> (r: String)
    ensures
        r@ == old(s)@,
        final(s)@ == Seq::<char>::empty(),
{
    let r = s.clone();
    *s = String::new();
    r
}

/// The message shown for the outcome of checking the two configuration
/// texts: the first parse error, else the first validation error, else
/// `Valid`.
pub open spec fn config_check_message(server_cfg: Seq<char>, entry_list: Seq<char>) -> Seq<char> {
    match ini_load(server_cfg) {
        Err(e) => "INI Parsing Error: "@ + ini_error_text(e.0, e.1, e.2),
        Ok(s) => match ini_load(entry_list) {
            Err(e) => "INI Parsing Error: "@ + ini_error_text(e.0, e.1, e.2),
            Ok(l) => match validation_error(s, l) {
                None => "Valid"@,
                Some(m) => "Validation Error: "@ + m,
            },
        },
    }
}

/// An operation on the server of a host that the window starts.
pub enum HostOperation {
    Uninstall,
    StartServer,
    StopServer,
}

/// The status shown while `op` runs.
pub open spec fn operation_status(op: HostOperation) -> Seq<char> {
    match op {
        HostOperation::Uninstall => "Uninstalling AC Server..."@,
        HostOperation::StartServer => "Starting AC Server via Docker..."@,
        HostOperation::StopServer => "Stopping AC Server via Docker..."@,
    }
}

impl ServerManager {
    /// The window's first state: ready, with no profiles, no connection,
    /// empty lists and idle uploads.
    pub fn new() -> (r: ServerManager)
        ensures
            r.status@ == "Ready."@,
            r.profiles_json@ == "[]"@,
            r.missing_dependencies_json@ == "[]"@,
            !r.is_connected,
            !r.needs_steam_2fa,
            r.server_cfg_content@ == Seq::<char>::empty(),
            r.entry_list_content@ == Seq::<char>::empty(),
            r.tracks_json@ == "[]"@,
            r.cars_json@ == "[]"@,
            r.profiles@.len() == 0,
            r.bootstrap_log_buffer@ == Seq::<char>::empty(),
            r.process_logs@.len() == 0,
            r.latest_stats_json@ == "{}"@,
            !r.pending_2fa_request,
            r.fetched_server_cfg is None,
            r.fetched_entry_list is None,
            r.config_save_status is None,
            r.fetched_tracks is None,
            r.track_upload_status@ == "idle"@,
            r.track_upload_logs@ == Seq::<char>::empty(),
            r.fetched_cars is None,
            r.car_upload_status@ == "idle"@,
            r.car_upload_logs@ == Seq::<char>::empty(),
    {
        ServerManager {
            status: text("Ready."),
            profiles_json: text("[]"),
            missing_dependencies_json: text("[]"),
            is_connected: false,
            needs_steam_2fa: false,
            server_cfg_content: String::new(),
            entry_list_content: String::new(),
            tracks_json: text("[]"),
            cars_json: text("[]"),
            profiles: Vec::new(),
            bootstrap_log_buffer: String::new(),
            process_logs: Vec::new(),
            latest_stats_json: text("{}"),
            pending_2fa_request: false,
            fetched_server_cfg: None,
            fetched_entry_list: None,
            config_save_status: None,
            fetched_tracks: None,
            track_upload_status: text("idle"),
            track_upload_logs: String::new(),
            fetched_cars: None,
            car_upload_status: text("idle"),
            car_upload_logs: String::new(),
        }
    }

    // --------------------------------------------------------------
    // Profiles
    // --------------------------------------------------------------

    /// The profiles read from the store at start-up, with their JSON.
    pub fn init(&mut self, profiles: Vec<ConnectionProfile>, profiles_json: String)
        ensures
            final(self).status@ == "Profiles loaded."@,
            *final(self) == (ServerManager {
                profiles,
                profiles_json,
                status: final(self).status,
                ..*old(self)
            }),
    {
        self.profiles = profiles;
        self.profiles_json = profiles_json;
        self.status = text("Profiles loaded.");
    }

    /// The profile with the id `id`, as a copy.
    pub fn profile(&self, id: &str) -> (r: Option<ConnectionProfile>)
        ensures
            match r {
                Some(p) => find_by_id(profile_views(self.profiles@), id@) == Some(p@),
                None => find_by_id(profile_views(self.profiles@), id@) is None,
            },
    {
        find_profile(&self.profiles, id)
    }

    /// Saves `p`: it replaces the profile with its id, or is added.
    pub fn save_profile(&mut self, p: ConnectionProfile)
        ensures
            profile_views(final(self).profiles@) == upsert(profile_views(old(self).profiles@), p@),
            *final(self) == (ServerManager { profiles: final(self).profiles, ..*old(self) }),
    {
        upsert_profile(&mut self.profiles, p);
    }

    /// Removes the profiles with the id `id`.
    pub fn remove_profile(&mut self, id: &str)
        ensures
            profile_views(final(self).profiles@) == without_id(profile_views(old(self).profiles@), id@),
            *final(self) == (ServerManager { profiles: final(self).profiles, ..*old(self) }),
    {
        remove_profiles_with_id(&mut self.profiles, id);
    }

    /// What writing the profile store gave after a profile was saved
    /// (`removed` false) or removed (`removed` true): on success the new
    /// list's JSON is shown; on failure the error.
    pub fn profiles_written(&mut self, removed: bool, result: Result<(), ServerManagerError>, profiles_json: String)
        ensures
            match result {
                Ok(()) => final(self).status@ == (if removed {
                    "Profile removed."@
                } else {
                    "Profile saved successfully."@
                }) && *final(self) == (ServerManager {
                    profiles_json,
                    status: final(self).status,
                    ..*old(self)
                }),
                Err(e) => final(self).status@ == (if removed {
                    "Error saving profiles: "@
                } else {
                    "Error saving profile: "@
                }) + error_message(e) && *final(self) == (ServerManager {
                    status: final(self).status,
                    ..*old(self)
                }),
            },
    {
        match result {
            Ok(()) => {
                self.profiles_json = profiles_json;
                self.status = if removed {
                    text("Profile removed.")
                } else {
                    text("Profile saved successfully.")
                };
            },
            Err(e) => {
                let mut s = if removed {
                    text("Error saving profiles: ")
                } else {
                    text("Error saving profile: ")
                };
                let m = e.message();
                append_str(&mut s, m.as_str());
                self.status = s;
            },
        }
    }

    // --------------------------------------------------------------
    // Status messages of the host operations
    // --------------------------------------------------------------

    /// Shows `msg` as the status.
    pub fn set_status(&mut self, msg: String)
        ensures
            *final(self) == (ServerManager { status: msg, ..*old(self) }),
    {
        self.status = msg;
    }

    /// The status while connecting to the host of `p`.
    pub fn connecting_message(p: &ConnectionProfile) -> (r: String)
        ensures
            r@ == "Connecting to "@ + p.host@ + " as "@ + p.username@
                + "... Check console for logs."@,
    {
        let mut s = text("Connecting to ");
        append_str(&mut s, p.host.as_str());
        append_str(&mut s, " as ");
        append_str(&mut s, p.username.as_str());
        append_str(&mut s, "... Check console for logs.");
        s
    }

    /// What connecting and checking the host's tools gave: a failed
    /// connection or check is shown as the status; otherwise the window is
    /// connected, and the missing tools (their JSON in
    /// `missing_json`) are offered for installation where there are any.
    pub fn connection_result(
        &mut self,
        connected: Result<(), ServerManagerError>,
        checked: Result<usize, ServerManagerError>,
        missing_json: String,
    )
        ensures
            match connected {
                Err(e) => final(self).status@ == "Connection failed: "@ + error_message(e)
                    && *final(self) == (ServerManager { status: final(self).status, ..*old(self) }),
                Ok(()) => match checked {
                    Err(e) => final(self).status@ == "Dependency check failed: "@ + error_message(e)
                        && *final(self) == (ServerManager {
                        status: final(self).status,
                        ..*old(self)
                    }),
                    Ok(n) => if n == 0 {
                        *final(self) == (ServerManager { is_connected: true, ..*old(self) })
                    } else {
                        *final(self) == (ServerManager {
                            is_connected: true,
                            missing_dependencies_json: missing_json,
                            ..*old(self)
                        })
                    },
                },
            },
    {
        match connected {
            Err(e) => {
                let mut s = text("Connection failed: ");
                append_str(&mut s, e.message().as_str());
                self.status = s;
            },
            Ok(()) => match checked {
                Err(e) => {
                    let mut s = text("Dependency check failed: ");
                    append_str(&mut s, e.message().as_str());
                    self.status = s;
                },
                Ok(n) => {
                    self.is_connected = true;
                    if n > 0 {
                        self.missing_dependencies_json = missing_json;
                    }
                },
            },
        }
    }

    /// Starts installing the missing tools on the host of `p`, where the
    /// profile was found: the offer is withdrawn in any case, and the
    /// status says what is installed where.
    pub fn approve_bootstrap(&mut self, p: Option<&ConnectionProfile>)
        ensures
            final(self).missing_dependencies_json@ == "[]"@,
            match p {
                Some(p) => final(self).status@ == "Installing dependencies and bootstrapping "@ + p.host@
                    + "..."@ && *final(self) == (ServerManager {
                    missing_dependencies_json: final(self).missing_dependencies_json,
                    status: final(self).status,
                    ..*old(self)
                }),
                None => *final(self) == (ServerManager {
                    missing_dependencies_json: final(self).missing_dependencies_json,
                    ..*old(self)
                }),
            },
    {
        self.missing_dependencies_json = text("[]");
        match p {
            Some(p) => {
                let mut s = text("Installing dependencies and bootstrapping ");
                append_str(&mut s, p.host.as_str());
                append_str(&mut s, "...");
                self.status = s;
            },
            None => {},
        }
    }

    /// The status while installing the server on the host of `p`.
    pub fn installing_message(p: &ConnectionProfile) -> (r: String)
        ensures
            r@ == "Installing AC Server on "@ + p.host@ + "..."@,
    {
        let mut s = text("Installing AC Server on ");
        append_str(&mut s, p.host.as_str());
        append_str(&mut s, "...");
        s
    }

    /// Shows that `op` has been started on the selected host.
    pub fn begin_operation(&mut self, op: &HostOperation)
        ensures
            final(self).status@ == operation_status(*op),
            *final(self) == (ServerManager { status: final(self).status, ..*old(self) }),
    {
        self.status = match op {
            HostOperation::Uninstall => text("Uninstalling AC Server..."),
            HostOperation::StartServer => text("Starting AC Server via Docker..."),
            HostOperation::StopServer => text("Stopping AC Server via Docker..."),
        };
    }

    /// The command that stops and deletes instance `id` on its host.
    pub fn uninstall_command(id: &str) -> (r: String)
        ensures
            r@ == "cd ~/ac-manager/instances/"@ + id@ + " && docker compose down; rm -rf ~/ac-manager/instances/"@
                + id@,
    {
        let mut s = text("cd ~/ac-manager/instances/");
        append_str(&mut s, id);
        append_str(&mut s, " && docker compose down; rm -rf ~/ac-manager/instances/");
        append_str(&mut s, id);
        s
    }

    // --------------------------------------------------------------
    // Logs
    // --------------------------------------------------------------

    /// Adds `chunk` to the bootstrap log.
    pub fn append_bootstrap_log(&mut self, chunk: &str)
        ensures
            final(self).bootstrap_log_buffer@ == old(self).bootstrap_log_buffer@ + chunk@,
            *final(self) == (ServerManager {
                bootstrap_log_buffer: final(self).bootstrap_log_buffer,
                ..*old(self)
            }),
    {
        append_str(&mut self.bootstrap_log_buffer, chunk);
    }

    /// The bootstrap log gathered since the last poll, which empties it.
    pub fn poll_bootstrap_log(&mut self) -> (r: String)
        ensures
            r@ == old(self).bootstrap_log_buffer@,
            final(self).bootstrap_log_buffer@ == Seq::<char>::empty(),
            *final(self) == (ServerManager {
                bootstrap_log_buffer: final(self).bootstrap_log_buffer,
                ..*old(self)
            }),
    {
        take_text(&mut self.bootstrap_log_buffer)
    }

    /// Adds `chunk` to the log of process `log_id`, which is created where
    /// there is none.
    pub fn append_process_log(&mut self, log_id: &str, chunk: &str)
        ensures
            log_entries(final(self).process_logs@) == kv_set(
                log_entries(old(self).process_logs@),
                log_id@,
                opt_or_empty(kv_get(log_entries(old(self).process_logs@), log_id@)) + chunk@,
            ),
            *final(self) == (ServerManager { process_logs: final(self).process_logs, ..*old(self) }),
    {
        let ghost m = log_entries(self.process_logs@);
        let ghost ks = keys_of(m);
        let key = crate::text::str_chars(log_id);
        match log_position(&self.process_logs, log_id) {
            Some(i) => {
                proof {
                    ks.index_of_first_ensures(log_id@);
                    assert(ks[i as int] == m[i as int].0);
                }
                let (id, mut t) = self.process_logs.remove(i);
                append_str(&mut t, chunk);
                self.process_logs.insert(i, (id, t));
                assert(log_entries(self.process_logs@) =~= m.update(i as int, (log_id@, m[i as int].1 + chunk@)));
            },
            None => {
                let mut t = String::new();
                append_str(&mut t, chunk);
                self.process_logs.push((text(log_id), t));
                assert(log_entries(self.process_logs@) =~= m.push((log_id@, Seq::<char>::empty() + chunk@)));
            },
        }
    }

    /// The log of process `log_id` gathered since the last poll, which
    /// empties it; empty where there is no such log.
    pub fn poll_process_logs(&mut self, log_id: &str) -> (r: String)
        ensures
            r@ == opt_or_empty(kv_get(log_entries(old(self).process_logs@), log_id@)),
            log_entries(final(self).process_logs@) == (match kv_get(log_entries(old(self).process_logs@), log_id@) {
                Some(_) => kv_set(log_entries(old(self).process_logs@), log_id@, Seq::<char>::empty()),
                None => log_entries(old(self).process_logs@),
            }),
            *final(self) == (ServerManager { process_logs: final(self).process_logs, ..*old(self) }),
    {
        let ghost m = log_entries(self.process_logs@);
        match log_position(&self.process_logs, log_id) {
            Some(i) => {
                proof {
                    keys_of(m).index_of_first_ensures(log_id@);
                    assert(keys_of(m)[i as int] == m[i as int].0);
                }
                let (id, t) = self.process_logs.remove(i);
                self.process_logs.insert(i, (id, String::new()));
                assert(log_entries(self.process_logs@) =~= m.update(i as int, (log_id@, Seq::<char>::empty())));
                t
            },
            None => String::new(),
        }
    }

    /// The latest statistics of the connected host, as JSON.
    pub fn get_latest_stats(&self) -> (r: String)
        ensures
            r@ == self.latest_stats_json@,
    {
        self.latest_stats_json.clone()
    }

    /// Keeps `json` as the latest statistics.
    pub fn set_latest_stats(&mut self, json: String)
        ensures
            *final(self) == (ServerManager { latest_stats_json: json, ..*old(self) }),
    {
        self.latest_stats_json = json;
    }

    // --------------------------------------------------------------
    // Steam Guard
    // --------------------------------------------------------------

    /// Shows the Steam Guard prompt where the installation asked for a
    /// code since the last poll, and clears that request.
    pub fn poll_2fa_request(&mut self)
        ensures
            old(self).pending_2fa_request ==> *final(self) == (ServerManager {
                pending_2fa_request: false,
                needs_steam_2fa: true,
                ..*old(self)
            }),
            !old(self).pending_2fa_request ==> *final(self) == *old(self),
    {
        if self.pending_2fa_request {
            self.pending_2fa_request = false;
            self.needs_steam_2fa = true;
        }
    }

    /// Hides the Steam Guard prompt once a code was handed to the
    /// installation that waits for one.
    pub fn submit_steam_2fa(&mut self)
        ensures
            *final(self) == (ServerManager { needs_steam_2fa: false, ..*old(self) }),
    {
        self.needs_steam_2fa = false;
    }

    // --------------------------------------------------------------
    // Configuration files
    // --------------------------------------------------------------

    /// Keeps the configuration files fetched from the host until the next
    /// poll.
    pub fn configs_fetched(&mut self, server_cfg: String, entry_list: String)
        ensures
            *final(self) == (ServerManager {
                fetched_server_cfg: Some(server_cfg),
                fetched_entry_list: Some(entry_list),
                ..*old(self)
            }),
    {
        self.fetched_server_cfg = Some(server_cfg);
        self.fetched_entry_list = Some(entry_list);
    }

    /// Shows the configuration files fetched since the last poll.
    pub fn poll_fetched_configs(&mut self)
        ensures
            final(self).fetched_server_cfg is None,
            final(self).fetched_entry_list is None,
            final(self).server_cfg_content == (match old(self).fetched_server_cfg {
                Some(s) => s,
                None => old(self).server_cfg_content,
            }),
            final(self).entry_list_content == (match old(self).fetched_entry_list {
                Some(s) => s,
                None => old(self).entry_list_content,
            }),
            *final(self) == (ServerManager {
                fetched_server_cfg: None,
                fetched_entry_list: None,
                server_cfg_content: final(self).server_cfg_content,
                entry_list_content: final(self).entry_list_content,
                ..*old(self)
            }),
    {
        match self.fetched_server_cfg.take() {
            Some(s) => {
                self.server_cfg_content = s;
            },
            None => {},
        }
        match self.fetched_entry_list.take() {
            Some(e) => {
                self.entry_list_content = e;
            },
            None => {},
        }
    }

    /// Whether the server is restarted after saving its configuration
    /// files: only where both `server_cfg.ini` and `entry_list.ini` were
    /// uploaded.
    pub fn restart_after_save(
        server_cfg: &Result<(), ServerManagerError>,
        entry_list: &Result<(), ServerManagerError>,
    ) -> (r: bool)
        ensures
            r == (server_cfg is Ok && entry_list is Ok),
    {
        server_cfg.is_ok() && entry_list.is_ok()
    }

    /// Keeps the outcome of saving the configuration files and restarting
    /// the server until the next poll.
    pub fn configs_saved(&mut self, restarted: bool)
        ensures
            final(self).config_save_status matches Some(s) && s@ == (if restarted {
                "Configs saved and server restarted."@
            } else {
                "Failed to save configs or restart server."@
            }),
            *final(self) == (ServerManager {
                config_save_status: final(self).config_save_status,
                ..*old(self)
            }),
    {
        self.config_save_status = Some(
            if restarted {
                text("Configs saved and server restarted.")
            } else {
                text("Failed to save configs or restart server.")
            },
        );
    }

    /// The outcome of saving the configuration files since the last poll,
    /// also shown as the status; empty where there is none.
    pub fn poll_config_save_status(&mut self) -> (r: String)
        ensures
            match old(self).config_save_status {
                Some(s) => r == s && *final(self) == (ServerManager {
                    config_save_status: None,
                    status: s,
                    ..*old(self)
                }),
                None => r@ == Seq::<char>::empty() && *final(self) == *old(self),
            },
    {
        match self.config_save_status.take() {
            Some(s) => {
                let r = s.clone();
                self.status = s;
                r
            },
            None => String::new(),
        }
    }

    /// The message for the configuration texts: `Valid`, or the first
    /// error.
    pub fn validate_server_configs(&self, server_cfg: &str, entry_list: &str) -> (r: String)
        ensures
            r@ == config_check_message(server_cfg@, entry_list@),
    {
        match IniManager::new(server_cfg, entry_list) {
            Ok(manager) => match manager.validate() {
                Ok(()) => text("Valid"),
                Err(e) => e.message(),
            },
            Err(e) => e.message(),
        }
    }

    // --------------------------------------------------------------
    // Catalogues
    // --------------------------------------------------------------

    /// Keeps a fetched track catalogue until the next poll.
    pub fn tracks_fetched(&mut self, json: String)
        ensures
            *final(self) == (ServerManager { fetched_tracks: Some(json), ..*old(self) }),
    {
        self.fetched_tracks = Some(json);
    }

    /// Shows the track catalogue fetched since the last poll.
    pub fn poll_fetched_tracks(&mut self)
        ensures
            match old(self).fetched_tracks {
                Some(t) => *final(self) == (ServerManager {
                    fetched_tracks: None,
                    tracks_json: t,
                    ..*old(self)
                }),
                None => *final(self) == *old(self),
            },
    {
        match self.fetched_tracks.take() {
            Some(t) => {
                self.tracks_json = t;
            },
            None => {},
        }
    }

    /// Keeps a fetched car catalogue until the next poll.
    pub fn cars_fetched(&mut self, json: String)
        ensures
            *final(self) == (ServerManager { fetched_cars: Some(json), ..*old(self) }),
    {
        self.fetched_cars = Some(json);
    }

    /// Shows the car catalogue fetched since the last poll.
    pub fn poll_fetched_cars(&mut self)
        ensures
            match old(self).fetched_cars {
                Some(c) => *final(self) == (ServerManager {
                    fetched_cars: None,
                    cars_json: c,
                    ..*old(self)
                }),
                None => *final(self) == *old(self),
            },
    {
        match self.fetched_cars.take() {
            Some(c) => {
                self.cars_json = c;
            },
            None => {},
        }
    }

    // --------------------------------------------------------------
    // Uploads
    // --------------------------------------------------------------

    /// Starts an upload of a track (`cars` false) or car: its status is
    /// `uploading` and its log empty.
    pub fn begin_upload(&mut self, cars: bool)
        ensures
            cars ==> final(self).car_upload_status@ == "uploading"@ && final(self).car_upload_logs@
                == Seq::<char>::empty() && *final(self) == (ServerManager {
                car_upload_status: final(self).car_upload_status,
                car_upload_logs: final(self).car_upload_logs,
                ..*old(self)
            }),
            !cars ==> final(self).track_upload_status@ == "uploading"@
                && final(self).track_upload_logs@ == Seq::<char>::empty() && *final(self) == (
            ServerManager {
                track_upload_status: final(self).track_upload_status,
                track_upload_logs: final(self).track_upload_logs,
                ..*old(self)
            }),
    {
        if cars {
            self.car_upload_status = text("uploading");
            self.car_upload_logs = String::new();
        } else {
            self.track_upload_status = text("uploading");
            self.track_upload_logs = String::new();
        }
    }

    /// Shows what a step of an upload of a track (`cars` false) or car
    /// said: its status where it gives one, and its log text appended.
    pub fn upload_progress(&mut self, cars: bool, status: Option<String>, log: Option<String>)
        ensures
            cars ==> final(self).car_upload_status == (match status {
                Some(s) => s,
                None => old(self).car_upload_status,
            }) && final(self).car_upload_logs@ == old(self).car_upload_logs@ + (match log {
                Some(l) => l@,
                None => Seq::<char>::empty(),
            }) && *final(self) == (ServerManager {
                car_upload_status: final(self).car_upload_status,
                car_upload_logs: final(self).car_upload_logs,
                ..*old(self)
            }),
            !cars ==> final(self).track_upload_status == (match status {
                Some(s) => s,
                None => old(self).track_upload_status,
            }) && final(self).track_upload_logs@ == old(self).track_upload_logs@ + (match log {
                Some(l) => l@,
                None => Seq::<char>::empty(),
            }) && *final(self) == (ServerManager {
                track_upload_status: final(self).track_upload_status,
                track_upload_logs: final(self).track_upload_logs,
                ..*old(self)
            }),
    {
        if cars {
            match status {
                Some(s) => {
                    self.car_upload_status = s;
                },
                None => {},
            }
            match log {
                Some(l) => append_str(&mut self.car_upload_logs, l.as_str()),
                None => {
                    assert(self.car_upload_logs@ =~= self.car_upload_logs@ + Seq::<char>::empty());
                },
            }
        } else {
            match status {
                Some(s) => {
                    self.track_upload_status = s;
                },
                None => {},
            }
            match log {
                Some(l) => append_str(&mut self.track_upload_logs, l.as_str()),
                None => {
                    assert(self.track_upload_logs@ =~= self.track_upload_logs@ + Seq::<char>::empty());
                },
            }
        }
    }

    /// The status of the track upload.
    pub fn poll_track_upload_status(&self) -> (r: String)
        ensures
            r@ == self.track_upload_status@,
    {
        self.track_upload_status.clone()
    }

    /// The track upload's log gathered since the last poll, which empties
    /// it.
    pub fn poll_track_upload_log(&mut self) -> (r: String)
        ensures
            r@ == old(self).track_upload_logs@,
            final(self).track_upload_logs@ == Seq::<char>::empty(),
            *final(self) == (ServerManager {
                track_upload_logs: final(self).track_upload_logs,
                ..*old(self)
            }),
    {
        take_text(&mut self.track_upload_logs)
    }

    /// The status of the car upload.
    pub fn poll_car_upload_status(&self) -> (r: String)
        ensures
            r@ == self.car_upload_status@,
    {
        self.car_upload_status.clone()
    }

    /// The car upload's log gathered since the last poll, which empties
    /// it.
    pub fn poll_car_upload_log(&mut self) -> (r: String)
        ensures
            r@ == old(self).car_upload_logs@,
            final(self).car_upload_logs@ == Seq::<char>::empty(),
            *final(self) == (ServerManager {
                car_upload_logs: final(self).car_upload_logs,
                ..*old(self)
            }),
    {
        take_text(&mut self.car_upload_logs)
    }
}

/// The place of the log of process `log_id`.
fn log_position(m: &Vec<(String, String)>, log_id: &str) -> (r: Option<usize>)
    ensures
        match r {
            Some(i) => i < m@.len() && keys_of(log_entries(m@)).index_of_first(log_id@) == Some(
                i as int,
            ),
            None => keys_of(log_entries(m@)).index_of_first(log_id@) is None,
        },
{
    let ghost ks = keys_of(log_entries(m@));
    let key = crate::text::str_chars(log_id);
    let mut i: usize = 0;
    while i < m.len()
        invariant
            i <= m@.len(),
            key@ == log_id@,
            ks == keys_of(log_entries(m@)),
            forall|j: int| 0 <= j < i ==> ks[j] != log_id@,
        decreases m@.len() - i,
    {
        let k = crate::text::str_chars(m[i].0.as_str());
        assert(ks[i as int] == m@[i as int].0@);
        if crate::text::chars_eq(k.as_slice(), key.as_slice()) {
            proof {
                lemma_first_index(ks, log_id@, i as int);
            }
            return Some(i);
        }
        i = i + 1;
    }
    proof {
        lemma_no_index(ks, log_id@);
    }
    None
}

} // verus!
