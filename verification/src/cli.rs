//! The command-line client's logic: controller addresses, the saved
//! client configuration, replies from the controller, and the requests
//! that commands send.

use vstd::prelude::*;
use vstd::string::StringExecFns;
use crate::api::{ApiResp, CreateEnvReq, VmSpec};
use crate::model::Engine;
use crate::net::{lemma_split_append_plain, lemma_split_append_sep, lemma_split_nonempty, split_on};
use crate::text::{
    chars_of, lines, lines_of, starts_with, starts_with_exec, string_from_chars, trim, trim_ws,
};

verus! {

// ── Controller address ──────────────────────────────────────────────

/// The base URL of the controller: the address itself when it already
/// starts with `http`, else the address behind `http://`.
pub open spec fn base_url_text(addr: Seq<char>) -> Seq<char> {
    if starts_with(addr, "http"@) {
        addr
    } else {
        "http://"@ + addr
    }
}

/// The base URL of the controller at `addr`.
pub fn base_url(addr: &str) -> (s: String)
    ensures
        s@ == base_url_text(addr@),
{
    let cs = chars_of(addr);
    let http = chars_of("http");
    if starts_with_exec(&cs, &http) {
        String::from_str(addr)
    } else {
        String::from_str("http://").concat(addr)
    }
}

/// The `Authorization` header value that carries an API key.
pub fn bearer_value(key: &str) -> (s: String)
    ensures
        s@ == "Bearer "@ + key@,
{
    String::from_str("Bearer ").concat(key)
}

/// The URL of an API path on the controller.
pub fn request_url(base: &str, path: &str) -> (s: String)
    ensures
        s@ == base@ + path@,
{
    String::from_str(base).concat(path)
}

// ── Replies ─────────────────────────────────────────────────────────

/// What a request that expects data yields for a reply: its data when it
/// succeeded (an error when it has none), else its error message, or
/// `HTTP <status>` when it gives none.
pub fn reply_data<T>(resp: ApiResp<T>, status: &str) -> (r: Result<T, String>)
    ensures
        resp.ok ==> match resp.data {
            Some(d) => r == Ok::<T, String>(d),
            None => r matches Err(e) && e@ == "empty response"@,
        },
        !resp.ok ==> match resp.error {
            Some(e) => r matches Err(m) && m@ == e@,
            None => r matches Err(m) && m@ == "HTTP "@ + status@,
        },
{
    if resp.ok {
        match resp.data {
            Some(d) => Ok(d),
            None => Err(String::from_str("empty response")),
        }
    } else {
        match resp.error {
            Some(e) => Err(e),
            None => Err(String::from_str("HTTP ").concat(status)),
        }
    }
}

/// What a request that expects no data yields for a reply: success, or
/// its error message, or `HTTP <status>` when it gives none.
pub fn reply_unit(resp: ApiResp<()>, status: &str) -> (r: Result<(), String>)
    ensures
        resp.ok ==> r is Ok,
        !resp.ok ==> match resp.error {
            Some(e) => r matches Err(m) && m@ == e@,
            None => r matches Err(m) && m@ == "HTTP "@ + status@,
        },
{
    if resp.ok {
        Ok(())
    } else {
        match resp.error {
            Some(e) => Err(e),
            None => Err(String::from_str("HTTP ").concat(status)),
        }
    }
}

// ── Configuration file ──────────────────────────────────────────────

/// CLI configuration: controller address and optional API key.
pub struct CliConfig {
    pub addr: String,
    pub api_key: Option<String>,
}

/// The text of an optional string.
pub open spec fn opt_text(o: Option<String>) -> Option<Seq<char>> {
    match o {
        Some(s) => Some(s@),
        None => None,
    }
}

/// The configuration that the text of a configuration file holds: the
/// trimmed first line is the address (none when it is empty or missing),
/// the trimmed second line, when not empty, the API key.
pub open spec fn config_of(content: Seq<char>) -> Option<(Seq<char>, Option<Seq<char>>)> {
    let ls = lines(content);
    if ls.len() == 0 || trim(ls[0]).len() == 0 {
        None
    } else {
        let key = if ls.len() > 1 && trim(ls[1]).len() > 0 {
            Some(trim(ls[1]))
        } else {
            None
        };
        Some((trim(ls[0]), key))
    }
}

/// Read the CLI configuration from the text of `~/.ttconfig`.
///
/// File format (one value per line): the address, then an optional API
/// key.
pub fn parse_cli_config(content: &str) -> (r: Option<CliConfig>)
    ensures
        match r {
            Some(c) => config_of(content@) == Some((c.addr@, opt_text(c.api_key))),
            None => config_of(content@) is None,
        },
{
    let cs = chars_of(content);
    let ls = lines_of(&cs);
    if ls.len() == 0 {
        return None;
    }
    let addr = trim_ws(&ls[0]);
    if addr.len() == 0 {
        return None;
    }
    let api_key = if ls.len() > 1 {
        let k = trim_ws(&ls[1]);
        if k.len() > 0 {
            Some(string_from_chars(&k))
        } else {
            None
        }
    } else {
        None
    };
    Some(CliConfig { addr: string_from_chars(&addr), api_key })
}

/// The text of a configuration file: the address, then the API key when
/// there is one, each on a line of its own.
pub open spec fn config_text(addr: Seq<char>, api_key: Option<Seq<char>>) -> Seq<char> {
    match api_key {
        Some(k) => addr + "\n"@ + k + "\n"@,
        None => addr + "\n"@,
    }
}

/// The text saved to `~/.ttconfig` for a controller address and an
/// optional API key.
pub fn render_cli_config(addr: &str, api_key: Option<&str>) -> (s: String)
    ensures
        s@ == config_text(
            addr@,
            match api_key {
                Some(k) => Some(k@),
                None => None,
            },
        ),
{
    match api_key {
        Some(k) => String::from_str(addr).concat("\n").concat(k).concat("\n"),
        None => String::from_str(addr).concat("\n"),
    }
}

/// The path of the configuration file under a home directory (`.` when
/// `HOME` is not set).
pub fn config_path(home: Option<&str>) -> (s: String)
    ensures
        s@ == match home {
            Some(h) => h@,
            None => "."@,
        } + "/.ttconfig"@,
{
    match home {
        Some(h) => String::from_str(h).concat("/.ttconfig"),
        None => String::from_str(".").concat("/.ttconfig"),
    }
}

/// Whether a value can stand on a line of the configuration file: not
/// empty, already trimmed, and holding no line break.
pub open spec fn config_value_ok(v: Seq<char>) -> bool {
    &&& v.len() > 0
    &&& trim(v) == v
    &&& forall|i: int| 0 <= i < v.len() ==> #[trigger] v[i] != '\n' && v[i] != '\r'
}

proof fn lemma_lines_of_value(v: Seq<char>, rest: Seq<char>)
    requires
        forall|i: int| 0 <= i < v.len() ==> #[trigger] v[i] != '\n',
    ensures
        split_on(v + "\n"@ + rest, '\n') == seq![v] + split_on(rest, '\n'),
    decreases rest.len(),
{
    reveal_strlit("\n");
    let e = Seq::<char>::empty();
    lemma_split_append_plain(e, v, '\n');
    assert(e + v =~= v);
    assert(split_on(e, '\n') =~= seq![e]);
    assert(split_on(v, '\n') =~= seq![v]);
    assert(v + "\n"@ =~= v.push('\n'));
    lemma_split_append_sep(v, '\n');
    if rest.len() == 0 {
        assert(v + "\n"@ + rest =~= v.push('\n'));
        assert(split_on(rest, '\n') =~= seq![e]);
        assert(seq![v] + seq![e] =~= seq![v].push(e));
    } else {
        let r2 = rest.drop_last();
        lemma_lines_of_value(v, r2);
        let s = v + "\n"@ + rest;
        assert(s.drop_last() =~= v + "\n"@ + r2);
        assert(s.last() == rest.last());
        lemma_split_nonempty(r2, '\n');
        lemma_split_nonempty(v + "\n"@ + r2, '\n');
        let p = split_on(r2, '\n');
        if rest.last() == '\n' {
            assert(split_on(s, '\n') =~= seq![v] + p.push(e));
        } else {
            assert(split_on(s, '\n') =~= seq![v] + p.update(p.len() - 1, p.last().push(rest.last())));
        }
    }
}

/// Saving a configuration and reading the file back gives the same
/// address and API key, for values that fit on a line.
pub proof fn lemma_config_roundtrip(addr: Seq<char>, api_key: Option<Seq<char>>)
    requires
        config_value_ok(addr),
        api_key matches Some(k) ==> config_value_ok(k),
    ensures
        config_of(config_text(addr, api_key)) == Some((addr, api_key)),
{
    reveal_strlit("\n");
    let e = Seq::<char>::empty();
    assert(split_on(e, '\n') =~= seq![e]);
    assert(addr.last() != '\r');
    match api_key {
        Some(k) => {
            assert(k.last() != '\r');
            lemma_lines_of_value(k, e);
            assert(k + "\n"@ + e =~= k + "\n"@);
            lemma_lines_of_value(addr, k + "\n"@);
            assert(addr + "\n"@ + (k + "\n"@) =~= config_text(addr, api_key));
            let p = split_on(config_text(addr, api_key), '\n');
            assert(p =~= seq![addr, k, e]);
            assert(lines(config_text(addr, api_key)) =~= seq![addr, k]);
        },
        None => {
            lemma_lines_of_value(addr, e);
            assert(addr + "\n"@ + e =~= config_text(addr, api_key));
            let p = split_on(config_text(addr, api_key), '\n');
            assert(p =~= seq![addr, e]);
            assert(lines(config_text(addr, api_key)) =~= seq![addr]);
        },
    }
}

// ── Environment requests ────────────────────────────────────────────

/// The owner of a new environment: the one given, else the user's login
/// name, else `default`.
pub fn choose_owner(owner: Option<String>, user_env: Option<String>) -> (s: String)
    ensures
        s@ == match owner {
            Some(o) => o@,
            None => match user_env {
                Some(u) => u@,
                None => "default"@,
            },
        },
{
    match owner {
        Some(o) => o,
        None => match user_env {
            Some(u) => u,
            None => String::from_str("default"),
        },
    }
}

/// Whether `v` is the VM spec for `image` with the given settings.
pub open spec fn is_spec_for(
    v: VmSpec,
    image: Seq<char>,
    engine: Engine,
    cpu: Option<u32>,
    mem: Option<u32>,
    disk: Option<u32>,
    ports: Seq<u16>,
    deny_outgoing: bool,
) -> bool {
    &&& v.image@ == image
    &&& v.engine == engine
    &&& v.cpu == cpu
    &&& v.mem == mem
    &&& v.disk == disk
    &&& v.ports@ == ports
    &&& v.deny_outgoing == deny_outgoing
}

fn copy_ports(ports: &[u16]) -> (v: Vec<u16>)
    ensures
        v@ == ports@,
{
    let mut v: Vec<u16> = Vec::new();
    let mut i: usize = 0;
    while i < ports.len()
        invariant
            i <= ports@.len(),
            v@ == ports@.subrange(0, i as int),
        decreases ports@.len() - i,
    {
        v.push(ports[i]);
        i = i + 1;
        assert(v@ =~= ports@.subrange(0, i as int));
    }
    assert(v@ =~= ports@);
    v
}

/// The VM specs of a new environment: each image `dup` times in a row,
/// all with the same engine, sizes, ports and outgoing policy.
pub fn build_vm_specs(
    images: &[String],
    engine: Engine,
    cpu: Option<u32>,
    mem: Option<u32>,
    disk: Option<u32>,
    dup: u32,
    ports: &[u16],
    deny_outgoing: bool,
) -> (v: Vec<VmSpec>)
    requires
        images@.len() * dup <= usize::MAX,
    ensures
        v@.len() == images@.len() * dup,
        forall|k: int|
            0 <= k < v@.len() ==> is_spec_for(
                #[trigger] v@[k],
                images@[k / dup as int]@,
                engine,
                cpu,
                mem,
                disk,
                ports@,
                deny_outgoing,
            ),
{
    let mut v: Vec<VmSpec> = Vec::new();
    let mut i: usize = 0;
    while i < images.len()
        invariant
            i <= images@.len(),
            images@.len() * dup <= usize::MAX,
            v@.len() == i * dup,
            forall|k: int|
                0 <= k < v@.len() ==> is_spec_for(
                    #[trigger] v@[k],
                    images@[k / dup as int]@,
                    engine,
                    cpu,
                    mem,
                    disk,
                    ports@,
                    deny_outgoing,
                ),
        decreases images@.len() - i,
    {
        let mut j: u32 = 0;
        proof {
            assert(i * dup + dup <= images@.len() * dup) by (nonlinear_arith)
                requires
                    i < images@.len(),
            ;
        }
        while j < dup
            invariant
                i < images@.len(),
                j <= dup,
                images@.len() * dup <= usize::MAX,
                i * dup + dup <= images@.len() * dup,
                v@.len() == i * dup + j,
                forall|k: int|
                    0 <= k < v@.len() ==> is_spec_for(
                        #[trigger] v@[k],
                        images@[k / dup as int]@,
                        engine,
                        cpu,
                        mem,
                        disk,
                        ports@,
                        deny_outgoing,
                    ),
            decreases dup - j,
        {
            let s = VmSpec {
                image: images[i].clone(),
                engine,
                cpu,
                mem,
                disk,
                ports: copy_ports(ports),
                deny_outgoing,
            };
            let ghost k = v@.len() as int;
            assert(k / dup as int == i) by (nonlinear_arith)
                requires
                    k == i * dup + j,
                    j < dup,
            ;
            v.push(s);
            j = j + 1;
        }
        i = i + 1;
        assert(v@.len() == i * dup) by (nonlinear_arith)
            requires
                v@.len() == (i - 1) * dup + dup,
        ;
    }
    v
}

/// The request that creates the environment `name`.
pub fn env_create_request(name: &str, owner: String, vms: Vec<VmSpec>, lifetime: Option<u64>) -> (r:
    CreateEnvReq)
    ensures
        r.id@ == name@,
        r.owner@ == owner@,
        r.vms@ == vms@,
        r.lifetime == lifetime,
{
    CreateEnvReq { id: String::from_str(name), owner, vms, lifetime }
}

} // verus!
