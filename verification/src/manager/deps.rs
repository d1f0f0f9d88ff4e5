//! The tools a host needs (Docker, curl, unzip), how to tell which are
//! missing, and how to install them on each family of Linux.
use vstd::prelude::*;
use crate::manager::error::ServerManagerError;
use crate::text::{append_str, chars_contains, contains, match_at, str_chars};
use crate::utils::stats_helpers::lowercase;

verus! {

/// The family of the remote host's operating system.
pub enum OsFamily {
    Debian,
    RedHat,
    Arch,
    Unknown,
}

/// A tool that the remote host must have: how to test for it and how to
/// install it on each family.
pub struct Dependency {
    pub name: &'static str,
    pub check_cmd: &'static str,
    pub setup_cmd_debian: &'static str,
    pub setup_cmd_redhat: &'static str,
    pub setup_cmd_arch: &'static str,
    pub setup_cmd_fallback: &'static str,
}

/// The install command of `d` for the family `os`.
pub open spec fn setup_cmd_for(d: Dependency, os: OsFamily) -> Seq<char> {
    match os {
        OsFamily::Debian => d.setup_cmd_debian@,
        OsFamily::RedHat => d.setup_cmd_redhat@,
        OsFamily::Arch => d.setup_cmd_arch@,
        OsFamily::Unknown => d.setup_cmd_fallback@,
    }
}

impl Dependency {
    /// The install command for the family `os`.
    pub fn get_setup_cmd(&self, os: &OsFamily) -> (r: &'static str)
        ensures
            r@ == setup_cmd_for(*self, *os),
    {
        match os {
            OsFamily::Debian => self.setup_cmd_debian,
            OsFamily::RedHat => self.setup_cmd_redhat,
            OsFamily::Arch => self.setup_cmd_arch,
            OsFamily::Unknown => self.setup_cmd_fallback,
        }
    }
}

/// The name and check command of each required tool, in order.
pub open spec fn dependency_checks() -> Seq<(Seq<char>, Seq<char>)> {
    seq![
        ("docker"@, "command -v docker"@),
        ("curl"@, "command -v curl"@),
        ("unzip"@, "command -v unzip"@),
    ]
}

/// The install commands of each required tool for Debian, Red Hat, Arch
/// and other hosts, in order.
pub open spec fn dependency_setups() -> Seq<(Seq<char>, Seq<char>, Seq<char>, Seq<char>)> {
    seq![
        (
            "curl -fsSL https://get.docker.com | sudo sh"@,
            "curl -fsSL https://get.docker.com | sudo sh"@,
            "curl -fsSL https://get.docker.com | sudo sh"@,
            "curl -fsSL https://get.docker.com | sudo sh"@,
        ),
        (
            "sudo apt-get update && sudo apt-get install -y curl"@,
            "sudo yum install -y curl"@,
            "sudo pacman -Sy --noconfirm curl"@,
            "echo 'Unsupported OS for automatic curl installation'"@,
        ),
        (
            "sudo apt-get update && sudo apt-get install -y unzip"@,
            "sudo yum install -y unzip"@,
            "sudo pacman -Sy --noconfirm unzip"@,
            "echo 'Unsupported OS for automatic unzip installation'"@,
        ),
    ]
}

/// `d` is the tool described by entry `i` of the tables.
pub open spec fn dependency_is(d: Dependency, i: int) -> bool {
    &&& d.name@ == dependency_checks()[i].0
    &&& d.check_cmd@ == dependency_checks()[i].1
    &&& d.setup_cmd_debian@ == dependency_setups()[i].0
    &&& d.setup_cmd_redhat@ == dependency_setups()[i].1
    &&& d.setup_cmd_arch@ == dependency_setups()[i].2
    &&& d.setup_cmd_fallback@ == dependency_setups()[i].3
}

/// The tools a host needs: Docker, curl and unzip.
pub fn dependencies() -> (r: Vec<Dependency>)
    ensures
        r@.len() == 3,
        forall|i: int| 0 <= i < 3 ==> dependency_is(#[trigger] r@[i], i),
{
    let v = vec![
        Dependency {
            name: "docker",
            check_cmd: "command -v docker",
            setup_cmd_debian: "curl -fsSL https://get.docker.com | sudo sh",
            setup_cmd_redhat: "curl -fsSL https://get.docker.com | sudo sh",
            setup_cmd_arch: "curl -fsSL https://get.docker.com | sudo sh",
            setup_cmd_fallback: "curl -fsSL https://get.docker.com | sudo sh",
        },
        Dependency {
            name: "curl",
            check_cmd: "command -v curl",
            setup_cmd_debian: "sudo apt-get update && sudo apt-get install -y curl",
            setup_cmd_redhat: "sudo yum install -y curl",
            setup_cmd_arch: "sudo pacman -Sy --noconfirm curl",
            setup_cmd_fallback: "echo 'Unsupported OS for automatic curl installation'",
        },
        Dependency {
            name: "unzip",
            check_cmd: "command -v unzip",
            setup_cmd_debian: "sudo apt-get update && sudo apt-get install -y unzip",
            setup_cmd_redhat: "sudo yum install -y unzip",
            setup_cmd_arch: "sudo pacman -Sy --noconfirm unzip",
            setup_cmd_fallback: "echo 'Unsupported OS for automatic unzip installation'",
        },
    ];
    v
}

/// A tool the host lacks, with the command that installs it.
pub struct MissingDependency {
    pub name: String,
    pub cmd: String,
}

/// The family named by the lower-cased text of `/etc/os-release`.
pub open spec fn os_family_of(low: Seq<char>) -> OsFamily {
    if contains(low, "id=debian"@) || contains(low, "id=ubuntu"@) || contains(low, "id_like=debian"@) {
        OsFamily::Debian
    } else if contains(low, "id=centos"@) || contains(low, "id=fedora"@) || contains(
        low,
        "id_like=\"rhel"@,
    ) {
        OsFamily::RedHat
    } else if contains(low, "id=arch"@) || contains(low, "id_like=arch"@) {
        OsFamily::Arch
    } else {
        OsFamily::Unknown
    }
}

/// The text names Debian, Ubuntu or a Debian-like system.
pub open spec fn names_debian(low: Seq<char>) -> bool {
    contains(low, "id=debian"@) || contains(low, "id=ubuntu"@) || contains(low, "id_like=debian"@)
}

/// The text names CentOS, Fedora or a RHEL-like system.
pub open spec fn names_redhat(low: Seq<char>) -> bool {
    contains(low, "id=centos"@) || contains(low, "id=fedora"@) || contains(low, "id_like=\"rhel"@)
}

/// The text names Arch or an Arch-like system.
pub open spec fn names_arch(low: Seq<char>) -> bool {
    contains(low, "id=arch"@) || contains(low, "id_like=arch"@)
}

/// A host whose lower-cased `/etc/os-release` says `id=debian`,
/// `id=ubuntu` or `id_like=debian` is of the Debian family; otherwise one
/// that says `id=centos`, `id=fedora` or `id_like="rhel` is of the Red
/// Hat family; otherwise one that says `id=arch` or `id_like=arch` is of
/// the Arch family; and one that says none of these is unknown. What
/// `detect_os` gives for the text `os_release` is the family of its
/// lower case.
pub proof fn lemma_os_family_markers(os_release: Seq<char>)
    ensures
        ({
            let low = lowercase(os_release);
            &&& contains(low, "id=debian"@) ==> os_family_of(low) == OsFamily::Debian
            &&& contains(low, "id=ubuntu"@) ==> os_family_of(low) == OsFamily::Debian
            &&& contains(low, "id_like=debian"@) ==> os_family_of(low) == OsFamily::Debian
            &&& !names_debian(low) && names_redhat(low) ==> os_family_of(low) == OsFamily::RedHat
            &&& !names_debian(low) && !names_redhat(low) && names_arch(low) ==> os_family_of(low) == OsFamily::Arch
            &&& !names_debian(low) && !names_redhat(low) && !names_arch(low) ==> os_family_of(low)
                == OsFamily::Unknown
            &&& os_family_of(low) == OsFamily::Debian ==> names_debian(low)
        }),
{
}

/// The command whose output tells the family of a host.
pub fn os_release_command() -> (r: &'static str)
    ensures
        r@ == "cat /etc/os-release"@,
{
    "cat /etc/os-release"
}

/// The family of a host whose `cat /etc/os-release` printed `os_release`
/// (`None` where the command failed or exited with a non-zero status).
pub fn detect_os(os_release: Option<&str>) -> (r: OsFamily)
    ensures
        r == (match os_release {
            Some(out) => os_family_of(lowercase(out@)),
            None => OsFamily::Unknown,
        }),
{
    let out = match os_release {
        Some(o) => o,
        None => {
            return OsFamily::Unknown;
        },
    };
    let low = crate::utils::stats_helpers::to_lowercase(out);
    let l = str_chars(low.as_str());
    let has = |p: &str| -> (b: bool)
        ensures
            b == contains(l@, p@),
        {
            let pv = str_chars(p);
            chars_contains(l.as_slice(), pv.as_slice())
        };
    if has("id=debian") || has("id=ubuntu") || has("id_like=debian") {
        OsFamily::Debian
    } else if has("id=centos") || has("id=fedora") || has("id_like=\"rhel") {
        OsFamily::RedHat
    } else if has("id=arch") || has("id_like=arch") {
        OsFamily::Arch
    } else {
        OsFamily::Unknown
    }
}

/// The missing tools, in order: those whose check did not pass, each with
/// its install command for the family `os`.
pub open spec fn missing_of(os: OsFamily, check_passed: Seq<bool>) -> Seq<(Seq<char>, Seq<char>)>
    decreases check_passed.len(),
{
    if check_passed.len() == 0 {
        Seq::empty()
    } else {
        let i = check_passed.len() - 1;
        let prev = missing_of(os, check_passed.drop_last());
        if check_passed[i] {
            prev
        } else {
            let d = dependency_setups()[i];
            prev.push(
                (
                    dependency_checks()[i].0,
                    match os {
                        OsFamily::Debian => d.0,
                        OsFamily::RedHat => d.1,
                        OsFamily::Arch => d.2,
                        OsFamily::Unknown => d.3,
                    },
                ),
            )
        }
    }
}

/// The install command `cmd` of the tool `name` suits the family `os`:
/// Docker's own install script everywhere; for another tool, `apt-get
/// install` on Debian, `yum install` on Red Hat, `pacman -Sy` on Arch, and
/// elsewhere a message that the family is not supported.
pub open spec fn installs_with_family_tool(os: OsFamily, name: Seq<char>, cmd: Seq<char>) -> bool {
    if name == "docker"@ {
        cmd == "curl -fsSL https://get.docker.com | sudo sh"@
    } else {
        match os {
            OsFamily::Debian => contains(cmd, "apt-get install -y "@ + name),
            OsFamily::RedHat => contains(cmd, "yum install -y "@ + name),
            OsFamily::Arch => contains(cmd, "pacman -Sy --noconfirm "@ + name),
            OsFamily::Unknown => cmd == "echo 'Unsupported OS for automatic "@ + name + " installation'"@,
        }
    }
}

/// The number of checks that did not pass.
pub open spec fn failed_count(checks: Seq<bool>) -> nat
    decreases checks.len(),
{
    if checks.len() == 0 {
        0
    } else {
        failed_count(checks.drop_last()) + if checks.last() {
            0nat
        } else {
            1nat
        }
    }
}

proof fn lemma_contains_at(s: Seq<char>, p: Seq<char>, j: int)
    requires
        0 <= j,
        j + p.len() <= s.len(),
        s.subrange(j, j + p.len()) == p,
    ensures
        contains(s, p),
{
    assert(match_at(s, p, j));
}

proof fn lemma_setups_fit(os: OsFamily, i: int)
    requires
        0 <= i < 3,
    ensures
        installs_with_family_tool(
            os,
            dependency_checks()[i].0,
            match os {
                OsFamily::Debian => dependency_setups()[i].0,
                OsFamily::RedHat => dependency_setups()[i].1,
                OsFamily::Arch => dependency_setups()[i].2,
                OsFamily::Unknown => dependency_setups()[i].3,
            },
        ),
{
    reveal_strlit("docker");
    reveal_strlit("curl");
    reveal_strlit("unzip");
    reveal_strlit("apt-get install -y ");
    reveal_strlit("yum install -y ");
    reveal_strlit("pacman -Sy --noconfirm ");
    reveal_strlit("echo 'Unsupported OS for automatic ");
    reveal_strlit(" installation'");
    reveal_strlit("sudo apt-get update && sudo apt-get install -y curl");
    reveal_strlit("sudo apt-get update && sudo apt-get install -y unzip");
    reveal_strlit("sudo yum install -y curl");
    reveal_strlit("sudo yum install -y unzip");
    reveal_strlit("sudo pacman -Sy --noconfirm curl");
    reveal_strlit("sudo pacman -Sy --noconfirm unzip");
    reveal_strlit("echo 'Unsupported OS for automatic curl installation'");
    reveal_strlit("echo 'Unsupported OS for automatic unzip installation'");
    assert("curl"@ != "docker"@ && "unzip"@ != "docker"@) by {
        assert("curl"@[0] != "docker"@[0]);
        assert("unzip"@[0] != "docker"@[0]);
    }
    if i == 1 || i == 2 {
        let n = dependency_checks()[i].0;
        let d = dependency_setups()[i];
        match os {
            OsFamily::Debian => {
                let p = "apt-get install -y "@ + n;
                assert(d.0.subrange(28, 28 + p.len() as int) =~= p);
                lemma_contains_at(d.0, p, 28);
            },
            OsFamily::RedHat => {
                let p = "yum install -y "@ + n;
                assert(d.1.subrange(5, 5 + p.len() as int) =~= p);
                lemma_contains_at(d.1, p, 5);
            },
            OsFamily::Arch => {
                let p = "pacman -Sy --noconfirm "@ + n;
                assert(d.2.subrange(5, 5 + p.len() as int) =~= p);
                lemma_contains_at(d.2, p, 5);
            },
            OsFamily::Unknown => {
                assert(d.3 =~= "echo 'Unsupported OS for automatic "@ + n + " installation'"@);
            },
        }
    }
}

proof fn lemma_missing_prefix(os: OsFamily, checks: Seq<bool>)
    requires
        checks.len() <= 3,
    ensures
        missing_of(os, checks).len() == failed_count(checks),
        forall|k: int|
            0 <= k < missing_of(os, checks).len() ==> exists|i: int|
                0 <= i < checks.len() && !checks[i] && (#[trigger] missing_of(os, checks)[k]).0
                    == dependency_checks()[i].0,
        forall|k: int|
            0 <= k < missing_of(os, checks).len() ==> installs_with_family_tool(
                os,
                (#[trigger] missing_of(os, checks)[k]).0,
                missing_of(os, checks)[k].1,
            ),
    decreases checks.len(),
{
    if checks.len() > 0 {
        let front = checks.drop_last();
        lemma_missing_prefix(os, front);
        let i = checks.len() - 1;
        lemma_setups_fit(os, i);
        let m = missing_of(os, checks);
        let before = missing_of(os, front);
        assert forall|k: int| 0 <= k < m.len() implies exists|t: int|
            0 <= t < checks.len() && !checks[t] && (#[trigger] m[k]).0 == dependency_checks()[t].0 by {
            if k < before.len() {
                assert(m[k] == before[k]);
                let t = choose|t: int| 0 <= t < front.len() && !front[t] && before[k].0 == dependency_checks()[t].0;
                assert(checks[t] == front[t]);
            } else {
                assert(!checks[i]);
            }
        }
        assert forall|k: int| 0 <= k < m.len() implies installs_with_family_tool(os, (#[trigger] m[k]).0, m[k].1) by {
            if k < before.len() {
                assert(m[k] == before[k]);
            }
        }
    }
}

/// The missing tools of a host of family `os` whose checks gave
/// `check_passed`: one entry per check that did not pass (none where
/// every check passed), each naming a tool whose check failed and
/// carrying an install command that suits the family.
pub proof fn lemma_missing_tools(os: OsFamily, check_passed: Seq<bool>)
    requires
        check_passed.len() == 3,
    ensures
        missing_of(os, check_passed).len() == failed_count(check_passed),
        forall|k: int|
            0 <= k < missing_of(os, check_passed).len() ==> exists|i: int|
                0 <= i < 3 && !check_passed[i] && (#[trigger] missing_of(os, check_passed)[k]).0
                    == seq!["docker"@, "curl"@, "unzip"@][i],
        forall|k: int|
            0 <= k < missing_of(os, check_passed).len() ==> installs_with_family_tool(
                os,
                (#[trigger] missing_of(os, check_passed)[k]).0,
                missing_of(os, check_passed)[k].1,
            ),
{
    lemma_missing_prefix(os, check_passed);
    assert forall|i: int| 0 <= i < 3 implies dependency_checks()[i].0 == seq!["docker"@, "curl"@, "unzip"@][i] by {}
}

/// The missing tools of a host of family `os`, where `check_passed[i]`
/// tells whether the check command of tool `i` exited with status 0.
pub fn get_missing_dependencies(os: &OsFamily, check_passed: &Vec<bool>) -> (r: Vec<MissingDependency>)
    requires
        check_passed@.len() == 3,
    ensures
        r@.map_values(|m: MissingDependency| (m.name@, m.cmd@)) == missing_of(*os, check_passed@),
{
    let deps = dependencies();
    let mut out: Vec<MissingDependency> = Vec::new();
    let mut i: usize = 0;
    while i < 3
        invariant
            i <= 3,
            check_passed@.len() == 3,
            deps@.len() == 3,
            forall|k: int| 0 <= k < 3 ==> dependency_is(#[trigger] deps@[k], k),
            out@.map_values(|m: MissingDependency| (m.name@, m.cmd@)) == missing_of(
                *os,
                check_passed@.take(i as int),
            ),
        decreases 3 - i,
    {
        let ghost tk = check_passed@.take(i + 1);
        assert(tk.drop_last() =~= check_passed@.take(i as int));
        if !check_passed[i] {
            let d = &deps[i];
            assert(dependency_is(deps@[i as int], i as int));
            let mut name = String::new();
            append_str(&mut name, d.name);
            let mut cmd = String::new();
            append_str(&mut cmd, d.get_setup_cmd(os));
            let m = MissingDependency { name, cmd };
            let ghost before = out@;
            out.push(m);
            assert(out@.map_values(|m: MissingDependency| (m.name@, m.cmd@)) =~= before.map_values(
                |m: MissingDependency| (m.name@, m.cmd@),
            ).push((name@, cmd@)));
        }
        i = i + 1;
    }
    assert(check_passed@.take(3) =~= check_passed@);
    out
}

/// The outcome of one install command that exited with `exit_status`
/// (`None` where it could not be run): only status 0 succeeds.
pub fn dependency_install_result(exit_status: Option<i32>) -> (r: Result<(), ServerManagerError>)
    ensures
        exit_status == Some(0i32) ==> r is Ok,
        exit_status != Some(0i32) ==> (r matches Err(ServerManagerError::SetupError(m)) && m@
            == "Dependency installation failed"@),
{
    match exit_status {
        Some(0) => Ok(()),
        _ => {
            let mut m = String::new();
            append_str(&mut m, "Dependency installation failed");
            Err(ServerManagerError::SetupError(m))
        },
    }
}

/// What installing the missing tools does next.
pub enum InstallStep {
    /// Run the install command at this index.
    Run(usize),
    /// Installing is over, with this outcome.
    Done(Result<(), ServerManagerError>),
}

/// Every install command run so far exited with status 0.
pub open spec fn all_installed(statuses: Seq<Option<i32>>) -> bool {
    forall|i: int| 0 <= i < statuses.len() ==> statuses[i] == Some(0i32)
}

/// The next step of installing the missing tools `commands` in order,
/// where `statuses` holds the exit statuses of the commands run so far
/// (`None` for one that could not be run): it stops with a setup error
/// at the first command that did not exit with status 0, runs the next
/// command while there is one, and ends with success after the last (at
/// once where nothing is missing).
pub fn install_dependencies(commands: &Vec<MissingDependency>, statuses: &Vec<Option<i32>>) -> (r: InstallStep)
    ensures
        !all_installed(statuses@) ==> (r matches InstallStep::Done(Err(ServerManagerError::SetupError(m)))
            && m@ == "Dependency installation failed"@),
        all_installed(statuses@) && statuses.len() < commands.len() ==> (r matches InstallStep::Run(i) && i
            == statuses.len()),
        all_installed(statuses@) && statuses.len() >= commands.len() ==> r matches InstallStep::Done(Ok(())),
{
    let mut i: usize = 0;
    while i < statuses.len()
        invariant
            i <= statuses.len(),
            all_installed(statuses@.take(i as int)),
        decreases statuses.len() - i,
    {
        match dependency_install_result(statuses[i]) {
            Ok(()) => {},
            Err(e) => {
                proof {
                    assert(statuses@[i as int] != Some(0i32));
                }
                return InstallStep::Done(Err(e));
            },
        }
        assert(statuses@.take(i + 1) =~= statuses@.take(i as int).push(statuses@[i as int]));
        i = i + 1;
    }
    assert(statuses@.take(i as int) =~= statuses@);
    if statuses.len() < commands.len() {
        InstallStep::Run(statuses.len())
    } else {
        InstallStep::Done(Ok(()))
    }
}

} // verus!
