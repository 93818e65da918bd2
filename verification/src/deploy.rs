//! Deployment plans: the service definitions, setup scripts and command
//! lines that install TTstack on local and remote hosts.

use vstd::prelude::*;
use vstd::string::StringExecFns;
use crate::num::{dec, hex_char, hex_char_exec, parse_u32, parse_u32_chars, u32_to_dec};
use crate::text::{
    chars_of, first_starting_with, index_of_char, index_of_char_exec, join, join_strings,
    last_index_of_char, last_index_of_char_exec, lemma_first_starting_with, lines, lines_of,
    slice_chars, starts_with, starts_with_exec, string_from_chars, trim, trim_char,
    trim_char_exec, trim_ws, views, words, words_of,
};

verus! {

// ── Deploy configuration ────────────────────────────────────────────

/// Settings shared by every host of a deployment.
pub struct GeneralConfig {
    pub prefix: String,
    pub user: String,
    pub release_dir: String,
    /// API key for controller authentication; a random key is generated
    /// when it is not set.
    pub api_key: Option<String>,
}

/// Where and how the controller is deployed.
pub struct ControllerConfig {
    pub host: String,
    pub ssh_user: String,
    pub ssh_port: u16,
    pub listen: String,
    pub data_dir: Option<String>,
}

/// Where and how one agent is deployed.
pub struct AgentConfig {
    pub host: String,
    pub ssh_user: String,
    pub ssh_port: u16,
    pub listen: String,
    pub storage: String,
    pub image_dir: Option<String>,
    pub runtime_dir: Option<String>,
    pub cpu_total: u32,
    pub mem_total: u32,
    pub disk_total: String,
    pub host_id: Option<String>,
    /// Release directory for this agent's binaries, in place of the
    /// general one (e.g. for musl or cross-compiled builds).
    pub release_dir: Option<String>,
}

/// A whole deployment: the general settings, an optional controller and
/// the agents.
pub struct DeployConfig {
    pub general: GeneralConfig,
    pub controller: Option<ControllerConfig>,
    pub agents: Vec<AgentConfig>,
}

pub fn default_prefix() -> (s: String)
    ensures
        s@ == "/opt/ttstack"@,
{
    String::from_str("/opt/ttstack")
}

pub fn default_user() -> (s: String)
    ensures
        s@ == "ttstack"@,
{
    String::from_str("ttstack")
}

pub fn default_release_dir() -> (s: String)
    ensures
        s@ == "./target/release"@,
{
    String::from_str("./target/release")
}

pub fn default_ssh_user() -> (s: String)
    ensures
        s@ == "root"@,
{
    String::from_str("root")
}

pub fn default_ssh_port() -> (p: u16)
    ensures
        p == 22,
{
    22
}

pub fn default_ctl_listen() -> (s: String)
    ensures
        s@ == "0.0.0.0:9200"@,
{
    String::from_str("0.0.0.0:9200")
}

pub fn default_agent_listen() -> (s: String)
    ensures
        s@ == "0.0.0.0:9100"@,
{
    String::from_str("0.0.0.0:9100")
}

pub fn default_storage() -> (s: String)
    ensures
        s@ == "raw"@,
{
    String::from_str("raw")
}

pub fn default_disk_total() -> (s: String)
    ensures
        s@ == "200G"@,
{
    String::from_str("200G")
}

impl Default for GeneralConfig {
    fn default() -> (r: GeneralConfig)
        ensures
            r.prefix@ == "/opt/ttstack"@,
            r.user@ == "ttstack"@,
            r.release_dir@ == "./target/release"@,
            r.api_key is None,
    {
        GeneralConfig {
            prefix: default_prefix(),
            user: default_user(),
            release_dir: default_release_dir(),
            api_key: None,
        }
    }
}

// ── Disk sizes ──────────────────────────────────────────────────────

/// The disk size text once trimmed of whitespace and quotes.
pub open spec fn disk_text(val: Seq<char>) -> Seq<char> {
    trim_char(trim(val), '"')
}

/// Whether a disk size text ends with a `g` or `G` unit.
pub open spec fn gib_suffix(v: Seq<char>) -> bool {
    v.len() > 0 && (v.last() == 'g' || v.last() == 'G')
}

/// The disk size in MiB that a `disk_total` setting gives: `<n>G` (or
/// `g`) is `n` GiB, with 200 GiB when `n` is not a number; a plain number
/// is MiB, with 204800 when it is not a number.
pub open spec fn disk_mib(val: Seq<char>) -> int {
    let v = disk_text(val);
    if gib_suffix(v) {
        match parse_u32(v.drop_last()) {
            Some(n) => n as int * 1024,
            None => 204800int,
        }
    } else {
        match parse_u32(v) {
            Some(n) => n as int,
            None => 204800,
        }
    }
}

/// Parse disk_total: "200G" → 204800 (MiB), plain number passes through.
pub fn parse_disk(val: &str) -> (r: u32)
    requires
        disk_mib(val@) <= u32::MAX,
    ensures
        r == disk_mib(val@),
{
    match parse_disk_checked(val) {
        Some(r) => r,
        None => {
            proof {
                assert(false);
            }
            0
        },
    }
}

/// The disk size in MiB of a `disk_total` setting, or `None` when it does
/// not fit a `u32` (`parse_disk` requires that it does).
pub fn parse_disk_checked(val: &str) -> (r: Option<u32>)
    ensures
        match r {
            Some(n) => n == disk_mib(val@),
            None => disk_mib(val@) > u32::MAX,
        },
{
    let cs = chars_of(val);
    let t = trim_ws(&cs);
    let v = trim_char_exec(&t, '"');
    let n = v.len();
    if n > 0 && (v[n - 1] == 'g' || v[n - 1] == 'G') {
        let num = slice_chars(&v, 0, n - 1);
        assert(num@ =~= v@.drop_last());
        match parse_u32_chars(&num) {
            Some(x) => if x <= 4194303 {
                Some(x * 1024)
            } else {
                None
            },
            None => Some(200 * 1024),
        }
    } else {
        match parse_u32_chars(&v) {
            Some(x) => Some(x),
            None => Some(204800),
        }
    }
}

// ── Service definitions ─────────────────────────────────────────────

/// The user lines of a systemd unit.
pub open spec fn systemd_user_lines(run_as_root: bool) -> Seq<char> {
    if run_as_root {
        "# Runs as root (needs NET_ADMIN for bridge/TAP/nftables)"@
    } else {
        "User=ttstack\nGroup=ttstack"@
    }
}

/// The systemd unit of a TTstack service.
pub open spec fn systemd_unit_text(name: Seq<char>, exec_start: Seq<char>, run_as_root: bool) -> Seq<
    char,
> {
    "[Unit]\nDescription=TTstack "@
        + name
        + "\nAfter=network.target\n\n[Service]\nType=simple\n"@
        + systemd_user_lines(run_as_root)
        + "\nExecStart="@
        + exec_start
        + "\nRestart=on-failure\nRestartSec=5\nLimitNOFILE=65536\n\n[Install]\nWantedBy=multi-user.target\n"@
}

/// The systemd unit that runs `exec_start` as the service `name`.
pub fn systemd_unit(name: &str, exec_start: &str, run_as_root: bool) -> (s: String)
    ensures
        s@ == systemd_unit_text(name@, exec_start@, run_as_root),
{
    let user_lines = if run_as_root {
        String::from_str("# Runs as root (needs NET_ADMIN for bridge/TAP/nftables)")
    } else {
        String::from_str("User=ttstack\nGroup=ttstack")
    };
    let mut s = String::from_str("[Unit]\nDescription=TTstack ");
    s.append(name);
    s.append("\nAfter=network.target\n\n[Service]\nType=simple\n");
    s.append(user_lines.as_str());
    s.append("\nExecStart=");
    s.append(exec_start);
    s.append("\nRestart=on-failure\nRestartSec=5\nLimitNOFILE=65536\n\n[Install]\nWantedBy=multi-user.target\n");
    s
}

/// The command of an OpenRC service: `exec_start` up to its first space.
pub open spec fn openrc_command(exec_start: Seq<char>) -> Seq<char> {
    match index_of_char(exec_start, ' ') {
        Some(k) => exec_start.subrange(0, k),
        None => exec_start,
    }
}

/// The arguments of an OpenRC service: `exec_start` after its first
/// space, or nothing.
pub open spec fn openrc_args(exec_start: Seq<char>) -> Seq<char> {
    match index_of_char(exec_start, ' ') {
        Some(k) => exec_start.subrange(k + 1, exec_start.len() as int),
        None => Seq::<char>::empty(),
    }
}

/// The OpenRC init script of a TTstack service.
pub open spec fn openrc_initd_text(name: Seq<char>, exec_start: Seq<char>) -> Seq<char> {
    "#!/sbin/openrc-run\n\nname=\""@
        + name
        + "\"\ndescription=\"TTstack "@
        + name
        + "\"\ncommand=\""@
        + openrc_command(exec_start)
        + "\"\ncommand_args=\""@
        + openrc_args(exec_start)
        + "\"\ncommand_background=true\npidfile=\"/run/${name}.pid\"\noutput_log=\"/var/log/${name}.log\"\nerror_log=\"/var/log/${name}.log\"\n\ndepend() {\n    need net\n    after firewall\n}\n"@
}

/// The OpenRC init script that runs `exec_start` as the service `name`.
pub fn openrc_initd(name: &str, exec_start: &str) -> (s: String)
    ensures
        s@ == openrc_initd_text(name@, exec_start@),
{
    let cs = chars_of(exec_start);
    let (cmd, args) = match index_of_char_exec(&cs, ' ') {
        Some(k) => {
            let n = cs.len();
            assert(k < n);
            let c = slice_chars(&cs, 0, k);
            let a = slice_chars(&cs, k + 1, n);
            (string_from_chars(&c), string_from_chars(&a))
        },
        None => (String::from_str(exec_start), String::new()),
    };
    let mut s = String::from_str("#!/sbin/openrc-run\n\nname=\"");
    s.append(name);
    s.append("\"\ndescription=\"TTstack ");
    s.append(name);
    s.append("\"\ncommand=\"");
    s.append(cmd.as_str());
    s.append("\"\ncommand_args=\"");
    s.append(args.as_str());
    s.append("\"\ncommand_background=true\npidfile=\"/run/${name}.pid\"\noutput_log=\"/var/log/${name}.log\"\nerror_log=\"/var/log/${name}.log\"\n\ndepend() {\n    need net\n    after firewall\n}\n");
    s
}

// ── Remote setup script ─────────────────────────────────────────────

/// The lines that install one binary from the upload directory.
pub open spec fn bin_copy_line(tmp: Seq<char>, prefix: Seq<char>, b: Seq<char>) -> Seq<char> {
    "sudo cp "@ + tmp + "/"@ + b + " "@ + prefix + "/bin/"@ + b + "\nsudo chmod 755 "@ + prefix
        + "/bin/"@ + b
}

/// The install lines of all binaries.
pub open spec fn bin_copies_text(tmp: Seq<char>, prefix: Seq<char>, bins: Seq<Seq<char>>) -> Seq<
    char,
> {
    join(Seq::new(bins.len(), |i: int| bin_copy_line(tmp, prefix, bins[i])), "\n"@)
}

/// The directories the setup script creates besides `<prefix>/bin`.
pub open spec fn dir_list_text(home: Seq<char>, extra: Seq<Seq<char>>) -> Seq<char> {
    join(extra + seq![home + "/data"@, home + "/run"@], " "@)
}

/// The texts of a sequence of string slices.
pub open spec fn str_views(s: Seq<&str>) -> Seq<Seq<char>> {
    Seq::new(s.len(), |i: int| s[i]@)
}

/// The shell script that installs a service on a remote host: it creates
/// the service user and directories, installs the binaries, and installs
/// and starts the service under systemd, OpenRC, or by hand.
pub open spec fn remote_script_text(
    service_name: Seq<char>,
    exec_cmd: Seq<char>,
    user: Seq<char>,
    home: Seq<char>,
    prefix: Seq<char>,
    tmp: Seq<char>,
    binaries: Seq<Seq<char>>,
    extra_dirs: Seq<Seq<char>>,
    host_label: Seq<char>,
) -> Seq<char> {
    let bin_copies = bin_copies_text(tmp, prefix, binaries);
    let dir_list = dir_list_text(home, extra_dirs);
    "#!/bin/sh\nset -e\n\n# Create service user (portable: works on glibc and busybox)\nif id "@
        + user
        + " >/dev/null 2>&1; then\n    echo \"[deploy] user '"@
        + user
        + "' exists\"\nelse\n    echo \"[deploy] creating user '"@
        + user
        + "'\"\n    if command -v useradd >/dev/null 2>&1; then\n        sudo useradd -r -m -d "@
        + home
        + " -s /bin/sh "@
        + user
        + "\n    elif command -v adduser >/dev/null 2>&1; then\n        sudo adduser -D -h "@
        + home
        + " -s /bin/sh "@
        + user
        + " 2>/dev/null || true\n    fi\nfi\n\n# Create directories\nsudo mkdir -p "@
        + prefix
        + "/bin "@
        + dir_list
        + "\n\n# Install binaries\n"@
        + bin_copies
        + "\n\n# Set ownership\nsudo chown -R "@
        + user
        + ":"@
        + user
        + " "@
        + home
        + " 2>/dev/null || true\n\n# Detect init system and install service\nif command -v systemctl >/dev/null 2>&1 && [ -d /etc/systemd/system ]; then\n    echo \"[deploy] using systemd\"\n    sudo tee /etc/systemd/system/"@
        + service_name
        + ".service > /dev/null <<'UNIT'\n"@
        + systemd_unit_text(service_name, exec_cmd, true)
        + "\nUNIT\n    sudo systemctl daemon-reload\n    sudo systemctl enable "@
        + service_name
        + "\n    sudo systemctl restart "@
        + service_name
        + "\n    sleep 1\n    sudo systemctl is-active "@
        + service_name
        + " && echo \"[deploy] "@
        + service_name
        + " is active\"\nelif command -v rc-service >/dev/null 2>&1; then\n    echo \"[deploy] using OpenRC\"\n    sudo tee /etc/init.d/"@
        + service_name
        + " > /dev/null <<'INITD'\n"@
        + openrc_initd_text(service_name, exec_cmd)
        + "\nINITD\n    sudo chmod 755 /etc/init.d/"@
        + service_name
        + "\n    sudo rc-update add "@
        + service_name
        + " default 2>/dev/null || true\n    sudo rc-service "@
        + service_name
        + " restart 2>/dev/null || sudo rc-service "@
        + service_name
        + " start\n    sleep 1\n    sudo rc-service "@
        + service_name
        + " status && echo \"[deploy] "@
        + service_name
        + " is running\"\nelse\n    echo \"[deploy] WARNING: no known init system; starting "@
        + service_name
        + " manually\"\n    sudo pkill -f '"@
        + prefix
        + "/bin/"@
        + service_name
        + "' 2>/dev/null || true\n    sleep 1\n    sudo nohup "@
        + exec_cmd
        + " > /var/log/"@
        + service_name
        + ".log 2>&1 &\n    sleep 2\n    pgrep -f '"@
        + prefix
        + "/bin/"@
        + service_name
        + "' && echo \"[deploy] "@
        + service_name
        + " started (manual)\"\nfi\n\n# Cleanup\nrm -rf "@
        + tmp
        + "\necho \"[deploy] "@
        + service_name
        + " deployed on "@
        + host_label
        + "\"\n"@
}

/// Generate the platform-aware remote setup script.
///
/// Uses `sudo` for all privileged operations, detects init system,
/// and handles both glibc (useradd) and busybox (adduser) user creation.
pub fn remote_setup_script(
    service_name: &str,
    exec_cmd: &str,
    user: &str,
    home: &str,
    prefix: &str,
    tmp: &str,
    binaries: &[&str],
    extra_dirs: &[&str],
    host_label: &str,
) -> (s: String)
    ensures
        s@ == remote_script_text(
            service_name@,
            exec_cmd@,
            user@,
            home@,
            prefix@,
            tmp@,
            str_views(binaries@),
            str_views(extra_dirs@),
            host_label@,
        ),
{
    let mut lines: Vec<String> = Vec::new();
    let mut i: usize = 0;
    while i < binaries.len()
        invariant
            i <= binaries@.len(),
            views(lines@) == Seq::new(
                i as nat,
                |k: int| bin_copy_line(tmp@, prefix@, str_views(binaries@)[k]),
            ),
        decreases binaries@.len() - i,
    {
        let b = binaries[i];
        let ghost old_lines = lines@;
        let line = String::from_str("sudo cp ").concat(tmp).concat("/").concat(b).concat(" ").concat(
            prefix,
        ).concat("/bin/").concat(b).concat("\nsudo chmod 755 ").concat(prefix).concat(
            "/bin/",
        ).concat(b);
        lines.push(line);
        i = i + 1;
        assert(views(lines@) =~= views(old_lines).push(line@));
        assert(line@ == bin_copy_line(tmp@, prefix@, str_views(binaries@)[i - 1]));
        assert(views(lines@) =~= Seq::new(
            i as nat,
            |k: int| bin_copy_line(tmp@, prefix@, str_views(binaries@)[k]),
        ));
    }
    assert(views(lines@) =~= Seq::new(
        binaries@.len(),
        |k: int| bin_copy_line(tmp@, prefix@, str_views(binaries@)[k]),
    ));
    let bin_copies = join_strings(&lines, "\n");
    let mut dirs: Vec<String> = Vec::new();
    let mut j: usize = 0;
    while j < extra_dirs.len()
        invariant
            j <= extra_dirs@.len(),
            views(dirs@) == str_views(extra_dirs@).take(j as int),
        decreases extra_dirs@.len() - j,
    {
        let ghost old_dirs = dirs@;
        let d = String::from_str(extra_dirs[j]);
        dirs.push(d);
        j = j + 1;
        assert(views(dirs@) =~= views(old_dirs).push(d@));
        assert(views(dirs@) =~= str_views(extra_dirs@).take(j as int));
    }
    assert(str_views(extra_dirs@).take(extra_dirs@.len() as int) =~= str_views(extra_dirs@));
    let ghost base = dirs@;
    let d1 = String::from_str(home).concat("/data");
    let d2 = String::from_str(home).concat("/run");
    dirs.push(d1);
    dirs.push(d2);
    assert(views(dirs@) =~= views(base).push(d1@).push(d2@));
    assert(views(dirs@) =~= str_views(extra_dirs@) + seq![home@ + "/data"@, home@ + "/run"@]);
    let dir_list = join_strings(&dirs, " ");
    let unit = systemd_unit(service_name, exec_cmd, true);
    let initd = openrc_initd(service_name, exec_cmd);
    let mut s = String::from_str("#!/bin/sh\nset -e\n\n# Create service user (portable: works on glibc and busybox)\nif id ");
    s.append(user);
    s.append(" >/dev/null 2>&1; then\n    echo \"[deploy] user '");
    s.append(user);
    s.append("' exists\"\nelse\n    echo \"[deploy] creating user '");
    s.append(user);
    s.append("'\"\n    if command -v useradd >/dev/null 2>&1; then\n        sudo useradd -r -m -d ");
    s.append(home);
    s.append(" -s /bin/sh ");
    s.append(user);
    s.append("\n    elif command -v adduser >/dev/null 2>&1; then\n        sudo adduser -D -h ");
    s.append(home);
    s.append(" -s /bin/sh ");
    s.append(user);
    s.append(" 2>/dev/null || true\n    fi\nfi\n\n# Create directories\nsudo mkdir -p ");
    s.append(prefix);
    s.append("/bin ");
    s.append(dir_list.as_str());
    s.append("\n\n# Install binaries\n");
    s.append(bin_copies.as_str());
    s.append("\n\n# Set ownership\nsudo chown -R ");
    s.append(user);
    s.append(":");
    s.append(user);
    s.append(" ");
    s.append(home);
    s.append(" 2>/dev/null || true\n\n# Detect init system and install service\nif command -v systemctl >/dev/null 2>&1 && [ -d /etc/systemd/system ]; then\n    echo \"[deploy] using systemd\"\n    sudo tee /etc/systemd/system/");
    s.append(service_name);
    s.append(".service > /dev/null <<'UNIT'\n");
    s.append(unit.as_str());
    s.append("\nUNIT\n    sudo systemctl daemon-reload\n    sudo systemctl enable ");
    s.append(service_name);
    s.append("\n    sudo systemctl restart ");
    s.append(service_name);
    s.append("\n    sleep 1\n    sudo systemctl is-active ");
    s.append(service_name);
    s.append(" && echo \"[deploy] ");
    s.append(service_name);
    s.append(" is active\"\nelif command -v rc-service >/dev/null 2>&1; then\n    echo \"[deploy] using OpenRC\"\n    sudo tee /etc/init.d/");
    s.append(service_name);
    s.append(" > /dev/null <<'INITD'\n");
    s.append(initd.as_str());
    s.append("\nINITD\n    sudo chmod 755 /etc/init.d/");
    s.append(service_name);
    s.append("\n    sudo rc-update add ");
    s.append(service_name);
    s.append(" default 2>/dev/null || true\n    sudo rc-service ");
    s.append(service_name);
    s.append(" restart 2>/dev/null || sudo rc-service ");
    s.append(service_name);
    s.append(" start\n    sleep 1\n    sudo rc-service ");
    s.append(service_name);
    s.append(" status && echo \"[deploy] ");
    s.append(service_name);
    s.append(" is running\"\nelse\n    echo \"[deploy] WARNING: no known init system; starting ");
    s.append(service_name);
    s.append(" manually\"\n    sudo pkill -f '");
    s.append(prefix);
    s.append("/bin/");
    s.append(service_name);
    s.append("' 2>/dev/null || true\n    sleep 1\n    sudo nohup ");
    s.append(exec_cmd);
    s.append(" > /var/log/");
    s.append(service_name);
    s.append(".log 2>&1 &\n    sleep 2\n    pgrep -f '");
    s.append(prefix);
    s.append("/bin/");
    s.append(service_name);
    s.append("' && echo \"[deploy] ");
    s.append(service_name);
    s.append(" started (manual)\"\nfi\n\n# Cleanup\nrm -rf ");
    s.append(tmp);
    s.append("\necho \"[deploy] ");
    s.append(service_name);
    s.append(" deployed on ");
    s.append(host_label);
    s.append("\"\n");
    s
}

// ── Command lines ───────────────────────────────────────────────────

/// The home directory of the service user.
pub open spec fn home_of(user: Seq<char>) -> Seq<char> {
    "/home/"@ + user
}

/// The home directory of the service user.
pub fn home_dir(user: &str) -> (s: String)
    ensures
        s@ == home_of(user@),
{
    String::from_str("/home/").concat(user)
}

/// The controller's command line.
pub open spec fn ctl_exec_text(
    prefix: Seq<char>,
    listen: Seq<char>,
    data_dir: Seq<char>,
    api_key: Seq<char>,
) -> Seq<char> {
    prefix + "/bin/tt-ctl --listen "@ + listen + " --data-dir "@ + data_dir + " --api-key "@
        + api_key
}

/// The controller's command line.
pub fn ctl_exec_cmd(prefix: &str, listen: &str, data_dir: &str, api_key: &str) -> (s: String)
    ensures
        s@ == ctl_exec_text(prefix@, listen@, data_dir@, api_key@),
{
    String::from_str(prefix).concat("/bin/tt-ctl --listen ").concat(listen).concat(
        " --data-dir ",
    ).concat(data_dir).concat(" --api-key ").concat(api_key)
}

/// The `--host-id` option, when a host id is set.
pub open spec fn host_id_opt(host_id: Option<String>) -> Seq<char> {
    match host_id {
        Some(h) => " --host-id "@ + h@,
        None => Seq::<char>::empty(),
    }
}

/// An agent's command line.
pub open spec fn agent_exec_text(
    prefix: Seq<char>,
    a: AgentConfig,
    home: Seq<char>,
    image_dir: Seq<char>,
    runtime_dir: Seq<char>,
    disk: u32,
) -> Seq<char> {
    prefix + "/bin/tt-agent --listen "@ + a.listen@ + " --image-dir "@ + image_dir
        + " --runtime-dir "@ + runtime_dir + " --data-dir "@ + home + "/data --storage "@
        + a.storage@ + " --cpu-total "@ + dec(a.cpu_total as nat) + " --mem-total "@ + dec(
        a.mem_total as nat,
    ) + " --disk-total "@ + dec(disk as nat) + host_id_opt(a.host_id)
}

/// An agent's command line.
pub fn agent_exec_cmd(
    prefix: &str,
    a: &AgentConfig,
    home: &str,
    image_dir: &str,
    runtime_dir: &str,
    disk: u32,
) -> (s: String)
    ensures
        s@ == agent_exec_text(prefix@, *a, home@, image_dir@, runtime_dir@, disk),
{
    let cpu = u32_to_dec(a.cpu_total);
    let mem = u32_to_dec(a.mem_total);
    let d = u32_to_dec(disk);
    let mut s = String::from_str(prefix);
    s.append("/bin/tt-agent --listen ");
    s.append(a.listen.as_str());
    s.append(" --image-dir ");
    s.append(image_dir);
    s.append(" --runtime-dir ");
    s.append(runtime_dir);
    s.append(" --data-dir ");
    s.append(home);
    s.append("/data --storage ");
    s.append(a.storage.as_str());
    s.append(" --cpu-total ");
    s.append(cpu.as_str());
    s.append(" --mem-total ");
    s.append(mem.as_str());
    s.append(" --disk-total ");
    s.append(d.as_str());
    match &a.host_id {
        Some(h) => {
            s.append(" --host-id ");
            s.append(h.as_str());
        },
        None => {
            assert(s@ =~= s@ + host_id_opt(a.host_id));
        },
    }
    s
}

/// The text of an optional setting, or `d` when it is not set.
pub open spec fn or_text(o: Option<String>, d: Seq<char>) -> Seq<char> {
    match o {
        Some(x) => x@,
        None => d,
    }
}

fn or_string(o: &Option<String>, d: String) -> (s: String)
    ensures
        s@ == or_text(*o, d@),
{
    match o {
        Some(x) => x.clone(),
        None => d,
    }
}

/// The setup script for the controller host.
pub open spec fn ctl_script_text(
    g: GeneralConfig,
    c: ControllerConfig,
    api_key: Seq<char>,
    tmp: Seq<char>,
) -> Seq<char> {
    let home = home_of(g.user@);
    let data_dir = or_text(c.data_dir, home + "/ctl"@);
    remote_script_text(
        "tt-ctl"@,
        ctl_exec_text(g.prefix@, c.listen@, data_dir, api_key),
        g.user@,
        home,
        g.prefix@,
        tmp,
        seq!["tt-ctl"@, "tt"@],
        seq![home + "/ctl"@],
        c.host@,
    )
}

/// The setup script that installs the controller on its host, the
/// binaries having been uploaded to `tmp`.
pub fn ctl_setup_script(g: &GeneralConfig, c: &ControllerConfig, api_key: &str, tmp: &str) -> (s:
    String)
    ensures
        s@ == ctl_script_text(*g, *c, api_key@, tmp@),
{
    let home = home_dir(g.user.as_str());
    let ctl_dir = String::from_str(home.as_str()).concat("/ctl");
    let data_dir = or_string(&c.data_dir, String::from_str(home.as_str()).concat("/ctl"));
    let exec_cmd = ctl_exec_cmd(g.prefix.as_str(), c.listen.as_str(), data_dir.as_str(), api_key);
    let bins: Vec<&str> = vec!["tt-ctl", "tt"];
    let dirs: Vec<&str> = vec![ctl_dir.as_str()];
    let s = remote_setup_script(
        "tt-ctl",
        exec_cmd.as_str(),
        g.user.as_str(),
        home.as_str(),
        g.prefix.as_str(),
        tmp,
        bins.as_slice(),
        dirs.as_slice(),
        c.host.as_str(),
    );
    assert(str_views(bins@) =~= seq!["tt-ctl"@, "tt"@]);
    assert(str_views(dirs@) =~= seq![home@ + "/ctl"@]);
    s
}

/// The setup script for one agent host.
pub open spec fn agent_script_text(g: GeneralConfig, a: AgentConfig, tmp: Seq<char>) -> Seq<char> {
    let home = home_of(g.user@);
    let image_dir = or_text(a.image_dir, home + "/images"@);
    let runtime_dir = or_text(a.runtime_dir, home + "/runtime"@);
    let disk = disk_mib(a.disk_total@) as u32;
    remote_script_text(
        "tt-agent"@,
        agent_exec_text(g.prefix@, a, home, image_dir, runtime_dir, disk),
        g.user@,
        home,
        g.prefix@,
        tmp,
        seq!["tt-agent"@],
        seq![image_dir, runtime_dir],
        a.host@,
    )
}

/// The setup script that installs an agent on its host, the binary
/// having been uploaded to `tmp`.
pub fn agent_setup_script(g: &GeneralConfig, a: &AgentConfig, tmp: &str) -> (s: String)
    requires
        disk_mib(a.disk_total@) <= u32::MAX,
    ensures
        s@ == agent_script_text(*g, *a, tmp@),
{
    let home = home_dir(g.user.as_str());
    let image_dir = or_string(&a.image_dir, String::from_str(home.as_str()).concat("/images"));
    let runtime_dir = or_string(
        &a.runtime_dir,
        String::from_str(home.as_str()).concat("/runtime"),
    );
    let disk = parse_disk(a.disk_total.as_str());
    let exec_cmd = agent_exec_cmd(
        g.prefix.as_str(),
        a,
        home.as_str(),
        image_dir.as_str(),
        runtime_dir.as_str(),
        disk,
    );
    let bins: Vec<&str> = vec!["tt-agent"];
    let dirs: Vec<&str> = vec![image_dir.as_str(), runtime_dir.as_str()];
    let s = remote_setup_script(
        "tt-agent",
        exec_cmd.as_str(),
        g.user.as_str(),
        home.as_str(),
        g.prefix.as_str(),
        tmp,
        bins.as_slice(),
        dirs.as_slice(),
        a.host.as_str(),
    );
    assert(str_views(bins@) =~= seq!["tt-agent"@]);
    assert(str_views(dirs@) =~= seq![image_dir@, runtime_dir@]);
    s
}

/// The setup script for an agent host, or `None` when its `disk_total`
/// does not fit a `u32` of MiB (`agent_setup_script` requires that it
/// does).
pub fn agent_setup_script_checked(g: &GeneralConfig, a: &AgentConfig, tmp: &str) -> (r: Option<
    String,
>)
    ensures
        match r {
            Some(s) => disk_mib(a.disk_total@) <= u32::MAX && s@ == agent_script_text(*g, *a, tmp@),
            None => disk_mib(a.disk_total@) > u32::MAX,
        },
{
    match parse_disk_checked(a.disk_total.as_str()) {
        Some(_) => Some(agent_setup_script(g, a, tmp)),
        None => None,
    }
}

/// The upload directory on a remote host.
pub fn deploy_tmp_dir(pid: u32) -> (s: String)
    ensures
        s@ == "/tmp/ttstack-deploy-"@ + dec(pid as nat),
{
    String::from_str("/tmp/ttstack-deploy-").concat(u32_to_dec(pid).as_str())
}

/// The port of a listen address: the text after its last `:` (the whole
/// text when it has none).
pub open spec fn listen_port_text(listen: Seq<char>) -> Seq<char> {
    match last_index_of_char(listen, ':') {
        Some(k) => listen.subrange(k + 1, listen.len() as int),
        None => listen,
    }
}

/// The port of a listen address.
pub fn listen_port(listen: &str) -> (s: String)
    ensures
        s@ == listen_port_text(listen@),
{
    let cs = chars_of(listen);
    match last_index_of_char_exec(&cs, ':') {
        Some(k) => {
            let n = cs.len();
            assert(k < n);
            string_from_chars(&slice_chars(&cs, k + 1, n))
        },
        None => String::from_str(listen),
    }
}

// ── API keys ────────────────────────────────────────────────────────

/// The API key made from a seed: `tt-`, then the seed and the seed times
/// 6364136223846793005 (mod 2^128), each in at least 16 hex digits.
pub open spec fn api_key_text(seed: u128) -> Seq<char> {
    "tt-"@ + crate::num::hex_pad(seed as nat, 16) + crate::num::hex_pad(
        (seed as nat * 6364136223846793005nat) % 0x1_0000_0000_0000_0000_0000_0000_0000_0000nat,
        16,
    )
}

/// The API key made from a seed (the clock, in nanoseconds).
pub fn api_key_from_seed(seed: u128) -> (s: String)
    ensures
        s@ == api_key_text(seed),
{
    let a = crate::num::hex_pad_exec(seed, 16);
    let m = seed.wrapping_mul(6364136223846793005);
    let b = crate::num::hex_pad_exec(m, 16);
    String::from_str("tt-").concat(a.as_str()).concat(b.as_str())
}

// ── Local deploy ────────────────────────────────────────────────────

/// Which services a local deploy installs for a role: the agent for
/// `agent` and `all`, the controller for `ctl` and `all`.
pub fn deploy_roles(role: &str) -> (r: (bool, bool))
    ensures
        r.0 == (role@ == "agent"@ || role@ == "all"@),
        r.1 == (role@ == "ctl"@ || role@ == "all"@),
{
    let r = chars_of(role);
    let agent = crate::text::chars_eq(&r, &chars_of("agent"));
    let ctl = crate::text::chars_eq(&r, &chars_of("ctl"));
    let all = crate::text::chars_eq(&r, &chars_of("all"));
    (agent || all, ctl || all)
}

/// The agent's command line for a local deploy.
pub fn local_agent_cmd() -> (s: String)
    ensures
        s@
            == "/opt/ttstack/bin/tt-agent --listen 0.0.0.0:9100 --image-dir /home/ttstack/images --runtime-dir /home/ttstack/runtime --data-dir /home/ttstack/data --storage raw"@,
{
    String::from_str(
        "/opt/ttstack/bin/tt-agent --listen 0.0.0.0:9100 --image-dir /home/ttstack/images --runtime-dir /home/ttstack/runtime --data-dir /home/ttstack/data --storage raw",
    )
}

/// The controller's command line for a local deploy.
pub fn local_ctl_cmd(api_key: &str) -> (s: String)
    ensures
        s@ == "/opt/ttstack/bin/tt-ctl --listen 0.0.0.0:9200 --data-dir /home/ttstack/ctl --api-key "@
            + api_key@,
{
    String::from_str(
        "/opt/ttstack/bin/tt-ctl --listen 0.0.0.0:9200 --data-dir /home/ttstack/ctl --api-key ",
    ).concat(api_key)
}

/// The directories a local deploy creates under the service user's home.
pub fn local_dirs(home: &str) -> (v: Vec<String>)
    ensures
        views(v@) == seq![
            home@ + "/images"@,
            home@ + "/runtime"@,
            home@ + "/data"@,
            home@ + "/ctl"@,
            home@ + "/run"@,
        ],
{
    let v: Vec<String> = vec![
        String::from_str(home).concat("/images"),
        String::from_str(home).concat("/runtime"),
        String::from_str(home).concat("/data"),
        String::from_str(home).concat("/ctl"),
        String::from_str(home).concat("/run"),
    ];
    assert(views(v@) =~= seq![
        home@ + "/images"@,
        home@ + "/runtime"@,
        home@ + "/data"@,
        home@ + "/ctl"@,
        home@ + "/run"@,
    ]);
    v
}

/// The user id that `/proc/self/status` text reports: the second word
/// of the first line starting with `Uid:`, or 1000 when there is none.
pub open spec fn status_uid(content: Seq<char>) -> u32 {
    let ls = lines(content);
    match first_starting_with(ls, "Uid:"@) {
        None => 1000,
        Some(k) => {
            let w = words(ls[k]);
            if w.len() < 2 {
                1000
            } else {
                match parse_u32(w[1]) {
                    Some(u) => u,
                    None => 1000,
                }
            }
        },
    }
}

/// The user id read from `/proc/self/status` text.
pub fn uid_from_status(content: &str) -> (r: u32)
    ensures
        r == status_uid(content@),
{
    let cs = chars_of(content);
    let ls = lines_of(&cs);
    let prefix = chars_of("Uid:");
    let mut i: usize = 0;
    while i < ls.len()
        invariant
            prefix@ == "Uid:"@,
            cs@ == content@,
            ls@.len() == lines(content@).len(),
            forall|k: int| 0 <= k < ls@.len() ==> #[trigger] ls@[k]@ == lines(content@)[k],
            i <= ls@.len(),
            forall|k: int| 0 <= k < i ==> !starts_with(#[trigger] lines(content@)[k], "Uid:"@),
        decreases ls@.len() - i,
    {
        if starts_with_exec(&ls[i], &prefix) {
            proof {
                lemma_first_starting_with(lines(content@), "Uid:"@, i as int);
            }
            let w = words_of(&ls[i]);
            if w.len() < 2 {
                return 1000;
            }
            return match parse_u32_chars(&w[1]) {
                Some(u) => u,
                None => 1000,
            };
        }
        i = i + 1;
    }
    proof {
        lemma_first_starting_with(lines(content@), "Uid:"@, i as int);
    }
    1000
}

} // verus!
