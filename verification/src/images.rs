//! The built-in guest image recipes and the plans for building them.
//!
//! Generates ready-to-use images so users can start creating VMs
//! immediately after deploying TTstack.

use vstd::prelude::*;
use vstd::string::StringExecFns;
use crate::text::{
    chars_eq, chars_of, index_of_char, index_of_char_exec, last_index_of_char,
    last_index_of_char_exec, slice_chars, string_from_chars,
};

verus! {

// ── Image catalog ───────────────────────────────────────────────────

/// A built-in image recipe that can be auto-generated.
pub struct ImageRecipe {
    pub name: String,
    pub engine: String,
    pub description: String,
}

/// The catalog: name, engine and description of every recipe, in order.
pub open spec fn recipe_table() -> Seq<(Seq<char>, Seq<char>, Seq<char>)> {
    seq![
        ("alpine"@, "docker"@, "Alpine Linux 3.21 (minimal, ~8MB)"@),
        ("debian"@, "docker"@, "Debian 13 Trixie (slim, ~75MB)"@),
        ("ubuntu"@, "docker"@, "Ubuntu 24.04 LTS (minimal, ~30MB)"@),
        ("rockylinux"@, "docker"@, "Rocky Linux 9 (minimal, ~70MB)"@),
        ("nginx"@, "docker"@, "Nginx web server (Alpine-based, ~45MB)"@),
        ("redis"@, "docker"@, "Redis 7 (Alpine-based, ~35MB)"@),
        ("postgres"@, "docker"@, "PostgreSQL 17 (Alpine-based, ~85MB)"@),
        ("fc-alpine"@, "firecracker"@, "Alpine Linux microVM (kernel + rootfs, ~50MB)"@),
        ("alpine-cloud"@, "qemu"@, "Alpine Linux 3.21 cloud image (qcow2, ~150MB)"@),
        ("debian-cloud"@, "qemu"@, "Debian 13 generic cloud image (qcow2, ~350MB)"@),
        ("ubuntu-cloud"@, "qemu"@, "Ubuntu 24.04 cloud image (qcow2, ~600MB)"@),
        ("freebsd-base"@, "jail"@, "FreeBSD 14.3 base (fetched from releases, ~180MB)"@)
    ]
}

/// The texts of a recipe.
pub open spec fn recipe_view(r: ImageRecipe) -> (Seq<char>, Seq<char>, Seq<char>) {
    (r.name@, r.engine@, r.description@)
}

/// The texts of a list of recipes.
pub open spec fn recipe_views(rs: Seq<ImageRecipe>) -> Seq<(Seq<char>, Seq<char>, Seq<char>)> {
    Seq::new(rs.len(), |i: int| recipe_view(rs[i]))
}

fn recipe(name: &str, engine: &str, description: &str) -> (r: ImageRecipe)
    ensures
        recipe_view(r) == (name@, engine@, description@),
{
    ImageRecipe {
        name: String::from_str(name),
        engine: String::from_str(engine),
        description: String::from_str(description),
    }
}

/// List of all auto-generatable images.
pub fn recipes() -> (v: Vec<ImageRecipe>)
    ensures
        recipe_views(v@) == recipe_table(),
{
    let v = vec![
        recipe("alpine", "docker", "Alpine Linux 3.21 (minimal, ~8MB)"),
        recipe("debian", "docker", "Debian 13 Trixie (slim, ~75MB)"),
        recipe("ubuntu", "docker", "Ubuntu 24.04 LTS (minimal, ~30MB)"),
        recipe("rockylinux", "docker", "Rocky Linux 9 (minimal, ~70MB)"),
        recipe("nginx", "docker", "Nginx web server (Alpine-based, ~45MB)"),
        recipe("redis", "docker", "Redis 7 (Alpine-based, ~35MB)"),
        recipe("postgres", "docker", "PostgreSQL 17 (Alpine-based, ~85MB)"),
        recipe("fc-alpine", "firecracker", "Alpine Linux microVM (kernel + rootfs, ~50MB)"),
        recipe("alpine-cloud", "qemu", "Alpine Linux 3.21 cloud image (qcow2, ~150MB)"),
        recipe("debian-cloud", "qemu", "Debian 13 generic cloud image (qcow2, ~350MB)"),
        recipe("ubuntu-cloud", "qemu", "Ubuntu 24.04 cloud image (qcow2, ~600MB)"),
        recipe("freebsd-base", "jail", "FreeBSD 14.3 base (fetched from releases, ~180MB)"),
    ];
    assert(recipe_views(v@) =~= recipe_table());
    v
}

/// `i` is the first recipe named `name`.
pub open spec fn is_first_recipe(name: Seq<char>, i: int) -> bool {
    &&& 0 <= i < recipe_table().len()
    &&& recipe_table()[i].0 == name
    &&& forall|k: int| 0 <= k < i ==> #[trigger] recipe_table()[k].0 != name
}

/// The recipe named `name`; the error points to the recipe list.
pub fn find_recipe(name: &str) -> (r: Result<ImageRecipe, String>)
    ensures
        match r {
            Ok(rec) => exists|i: int|
                is_first_recipe(name@, i) && recipe_view(rec) == recipe_table()[i],
            Err(m) => (forall|i: int|
                0 <= i < recipe_table().len() ==> #[trigger] recipe_table()[i].0 != name@) && m@
                == "unknown image recipe '"@ + name@
                + "' (run 'tt image recipes' to list)"@,
        },
{
    let mut all = recipes();
    let want = chars_of(name);
    let mut i: usize = 0;
    while i < all.len()
        invariant
            want@ == name@,
            recipe_views(all@) == recipe_table(),
            i <= all@.len(),
            forall|k: int| 0 <= k < i ==> #[trigger] recipe_table()[k].0 != name@,
        decreases all@.len() - i,
    {
        let have = chars_of(all[i].name.as_str());
        if chars_eq(&have, &want) {
            assert(recipe_view(all@[i as int]) == recipe_table()[i as int]);
            assert(is_first_recipe(name@, i as int));
            let rec = all.remove(i);
            return Ok(rec);
        }
        i = i + 1;
    }
    Err(String::from_str("unknown image recipe '").concat(name).concat(
        "' (run 'tt image recipes' to list)",
    ))
}

/// The recipes for an engine, in catalog order.
pub open spec fn engine_recipes(engine: Seq<char>) -> Seq<(Seq<char>, Seq<char>, Seq<char>)> {
    recipe_table().filter(for_engine(engine))
}

/// Whether a catalog entry is for `engine`.
pub open spec fn for_engine(engine: Seq<char>) -> spec_fn((Seq<char>, Seq<char>, Seq<char>)) -> bool {
    |r: (Seq<char>, Seq<char>, Seq<char>)| r.1 == engine
}

/// All recipes for an engine; there must be at least one.
pub fn recipes_for_engine(engine: &str) -> (r: Result<Vec<ImageRecipe>, String>)
    ensures
        match r {
            Ok(v) => recipe_views(v@) == engine_recipes(engine@) && v@.len() > 0,
            Err(m) => engine_recipes(engine@).len() == 0 && m@ == "no recipes for engine '"@
                + engine@ + "'"@,
        },
{
    let all = recipes();
    let want = chars_of(engine);
    let mut out: Vec<ImageRecipe> = Vec::new();
    let mut i: usize = 0;
    let mut rest = all;
    let ghost table = recipe_table();
    while rest.len() > 0
        invariant
            want@ == engine@,
            i + rest@.len() == table.len(),
            table.len() == 12,
            recipe_views(rest@) == table.skip(i as int),
            recipe_views(out@) == table.take(i as int).filter(for_engine(engine@)),
        decreases rest@.len(),
    {
        let ghost old_rest = rest@;
        let rec = rest.remove(0);
        let ghost before = out@;
        proof {
            assert(recipe_views(old_rest)[0] == table.skip(i as int)[0]);
            assert(recipe_view(rec) == table[i as int]);
            assert(table.take(i as int + 1).drop_last() =~= table.take(i as int));
            assert(table.take(i as int + 1).last() == table[i as int]);
            assert(table.take(i as int + 1) =~= table.take(i as int).push(table[i as int]));
            table.take(i as int).lemma_filter_push(table[i as int], for_engine(engine@));
        }
        let have = chars_of(rec.engine.as_str());
        if chars_eq(&have, &want) {
            out.push(rec);
            assert(recipe_views(out@) =~= recipe_views(before).push(table[i as int]));
        }
        i = i + 1;
        assert(recipe_views(rest@) =~= recipe_views(old_rest).drop_first());
        assert(recipe_views(rest@) =~= table.skip(i as int));
    }
    assert(table.take(i as int) =~= table);
    if out.len() == 0 {
        return Err(String::from_str("no recipes for engine '").concat(engine).concat("'"));
    }
    Ok(out)
}

/// Whether building every image on a platform includes a recipe for
/// `engine`: jails only on FreeBSD, Firecracker only elsewhere.
pub fn builds_on_platform(engine: &str, freebsd: bool) -> (r: bool)
    ensures
        r == !((engine@ == "jail"@ && !freebsd) || (engine@ == "firecracker"@ && freebsd)),
{
    let e = chars_of(engine);
    let jail = chars_eq(&e, &chars_of("jail"));
    let fc = chars_eq(&e, &chars_of("firecracker"));
    !((jail && !freebsd) || (fc && freebsd))
}

/// How a recipe's image is built.
pub enum BuildKind {
    Docker,
    Firecracker,
    Qemu,
    Jail,
}

/// The way to build an image for a recipe's engine.
pub fn build_kind(engine: &str) -> (r: Result<BuildKind, String>)
    ensures
        match r {
            Ok(BuildKind::Docker) => engine@ == "docker"@,
            Ok(BuildKind::Firecracker) => engine@ == "firecracker"@,
            Ok(BuildKind::Qemu) => engine@ == "qemu"@,
            Ok(BuildKind::Jail) => engine@ == "jail"@,
            Err(m) => engine@ != "docker"@ && engine@ != "firecracker"@ && engine@ != "qemu"@
                && engine@ != "jail"@ && m@ == "unsupported engine: "@ + engine@,
        },
{
    let e = chars_of(engine);
    if chars_eq(&e, &chars_of("docker")) {
        Ok(BuildKind::Docker)
    } else if chars_eq(&e, &chars_of("firecracker")) {
        Ok(BuildKind::Firecracker)
    } else if chars_eq(&e, &chars_of("qemu")) {
        Ok(BuildKind::Qemu)
    } else if chars_eq(&e, &chars_of("jail")) {
        Ok(BuildKind::Jail)
    } else {
        Err(String::from_str("unsupported engine: ").concat(engine))
    }
}

// ── Docker / Podman images ──────────────────────────────────────────

/// The Docker image tag a recipe name stands for (the name itself when
/// it has no tag of its own).
pub open spec fn docker_tag_text(name: Seq<char>) -> Seq<char> {
    if name == "alpine"@ {
        "alpine:3.21"@
    } else if name == "debian"@ {
        "debian:trixie-slim"@
    } else if name == "ubuntu"@ {
        "ubuntu:24.04"@
    } else if name == "rockylinux"@ {
        "rockylinux:9-minimal"@
    } else if name == "nginx"@ {
        "nginx:alpine"@
    } else if name == "redis"@ {
        "redis:7-alpine"@
    } else if name == "postgres"@ {
        "postgres:17-alpine"@
    } else {
        name
    }
}

/// Map recipe name to Docker image tag.
pub fn docker_tag(name: &str) -> (s: String)
    ensures
        s@ == docker_tag_text(name@),
{
    let cs = chars_of(name);
    if chars_eq(&cs, &chars_of("alpine")) {
        return String::from_str("alpine:3.21");
    }
    if chars_eq(&cs, &chars_of("debian")) {
        return String::from_str("debian:trixie-slim");
    }
    if chars_eq(&cs, &chars_of("ubuntu")) {
        return String::from_str("ubuntu:24.04");
    }
    if chars_eq(&cs, &chars_of("rockylinux")) {
        return String::from_str("rockylinux:9-minimal");
    }
    if chars_eq(&cs, &chars_of("nginx")) {
        return String::from_str("nginx:alpine");
    }
    if chars_eq(&cs, &chars_of("redis")) {
        return String::from_str("redis:7-alpine");
    }
    if chars_eq(&cs, &chars_of("postgres")) {
        return String::from_str("postgres:17-alpine");
    }
    String::from_str(name)
}

// ── QEMU cloud images ──────────────────────────────────────────────

/// The download URL of a QEMU cloud image recipe.
pub open spec fn qemu_cloud_url_text(name: Seq<char>) -> Option<Seq<char>> {
    if name == "alpine-cloud"@ {
        Some("https://dl-cdn.alpinelinux.org/alpine/v3.21/releases/cloud/nocloud_alpine-3.21.3-x86_64-bios-cloudinit-r0.qcow2"@)
    } else if name == "debian-cloud"@ {
        Some("https://cloud.debian.org/images/cloud/trixie/daily/latest/debian-13-generic-amd64-daily.qcow2"@)
    } else if name == "ubuntu-cloud"@ {
        Some("https://cloud-images.ubuntu.com/noble/current/noble-server-cloudimg-amd64.img"@)
    } else {
        None
    }
}

/// The download URL of a QEMU cloud image recipe.
pub fn qemu_cloud_url(name: &str) -> (r: Option<String>)
    ensures
        match r {
            Some(u) => qemu_cloud_url_text(name@) == Some(u@),
            None => qemu_cloud_url_text(name@) is None,
        },
{
    let cs = chars_of(name);
    if chars_eq(&cs, &chars_of("alpine-cloud")) {
        return Some(String::from_str("https://dl-cdn.alpinelinux.org/alpine/v3.21/releases/cloud/nocloud_alpine-3.21.3-x86_64-bios-cloudinit-r0.qcow2"));
    }
    if chars_eq(&cs, &chars_of("debian-cloud")) {
        return Some(String::from_str("https://cloud.debian.org/images/cloud/trixie/daily/latest/debian-13-generic-amd64-daily.qcow2"));
    }
    if chars_eq(&cs, &chars_of("ubuntu-cloud")) {
        return Some(String::from_str("https://cloud-images.ubuntu.com/noble/current/noble-server-cloudimg-amd64.img"));
    }
    None
}

/// Whether a downloaded cloud image must be converted to qcow2: when the
/// URL's last `.`-separated part is `img`.
pub open spec fn needs_conversion_text(url: Seq<char>) -> bool {
    match last_index_of_char(url, '.') {
        Some(k) => url.subrange(k + 1, url.len() as int) == "img"@,
        None => url == "img"@,
    }
}

/// Whether a downloaded cloud image must be converted to qcow2.
pub fn needs_qcow2_conversion(url: &str) -> (r: bool)
    ensures
        r == needs_conversion_text(url@),
{
    let cs = chars_of(url);
    let img = chars_of("img");
    match last_index_of_char_exec(&cs, '.') {
        Some(k) => {
            let n = cs.len();
            let ext = slice_chars(&cs, k + 1, n);
            chars_eq(&ext, &img)
        },
        None => chars_eq(&cs, &img),
    }
}

// ── Firecracker images ──────────────────────────────────────────────

/// Size in MiB of a Firecracker root filesystem.
pub const FC_ROOTFS_MB: u32 = 128;

/// The init script of a Firecracker guest built from recipe `name`.
pub open spec fn fc_init_text(name: Seq<char>) -> Seq<char> {
    "#!/bin/sh\nmount -t proc proc /proc\nmount -t sysfs sysfs /sys\nmount -t devtmpfs devtmpfs /dev 2>/dev/null\nmkdir -p /dev/pts\nmount -t devpts devpts /dev/pts\nhostname ttstack\necho \"TTstack Firecracker guest ["@
        + name
        + "] booted OK\"\n\n# Set up networking if virtio-net is available\nip link set eth0 up 2>/dev/null\nip addr add 10.10.0.2/16 dev eth0 2>/dev/null\nip route add default via 10.10.0.1 2>/dev/null\n\n# Start shell or sleep forever\nif [ -x /bin/sh ]; then\n    /bin/sh\nelse\n    while true; do sleep 3600; done\nfi\n"@
}

/// The init script of a Firecracker guest built from recipe `name`: it
/// mounts the essential filesystems, brings up networking and starts a
/// shell.
pub fn fc_init_script(name: &str) -> (s: String)
    ensures
        s@ == fc_init_text(name@),
{
    let mut s = String::from_str("#!/bin/sh\nmount -t proc proc /proc\nmount -t sysfs sysfs /sys\nmount -t devtmpfs devtmpfs /dev 2>/dev/null\nmkdir -p /dev/pts\nmount -t devpts devpts /dev/pts\nhostname ttstack\necho \"TTstack Firecracker guest [");
    s.append(name);
    s.append("] booted OK\"\n\n# Set up networking if virtio-net is available\nip link set eth0 up 2>/dev/null\nip addr add 10.10.0.2/16 dev eth0 2>/dev/null\nip route add default via 10.10.0.1 2>/dev/null\n\n# Start shell or sleep forever\nif [ -x /bin/sh ]; then\n    /bin/sh\nelse\n    while true; do sleep 3600; done\nfi\n");
    s
}

// ── Jail images (FreeBSD) ───────────────────────────────────────────

/// The major version of a FreeBSD version text: up to its first `.`.
pub open spec fn major_text(ver: Seq<char>) -> Seq<char> {
    match index_of_char(ver, '.') {
        Some(k) => ver.subrange(0, k),
        None => ver,
    }
}

/// The URL of the FreeBSD base set for a version text.
pub fn jail_base_url(ver: &str) -> (s: String)
    ensures
        s@ == "https://download.freebsd.org/releases/amd64/"@ + major_text(ver@)
            + ".3-RELEASE/base.txz"@,
{
    let cs = chars_of(ver);
    let major = match index_of_char_exec(&cs, '.') {
        Some(k) => string_from_chars(&slice_chars(&cs, 0, k)),
        None => String::from_str(ver),
    };
    String::from_str("https://download.freebsd.org/releases/amd64/").concat(major.as_str()).concat(
        ".3-RELEASE/base.txz",
    )
}

} // verus!
