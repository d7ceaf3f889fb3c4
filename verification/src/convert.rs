//! Conversion of a `docker run ...` command line into a compose service.
use vstd::prelude::*;

use crate::text::{
    chars_eq, chars_of, contains_char, decimal, ends_with_str, eq_str, first_pos, is_first,
    decimal_chars, lemma_add_assoc, lemma_first_pos, lemma_first_unique, push_chars, push_str,
    slice_chars, starts_with_str,
    split_once, split_once_char, string_of, trim, trim_chars, contains_seq, occurs_at,
};

verus! {

// ───── Trusted items ─────

/// What `shlex::split` returns for a command line: the POSIX-shell words of
/// the line, or `None` when the line has an unterminated quote or escape.
pub uninterp spec fn shlex_words(line: Seq<char>) -> Option<Seq<Seq<char>>>;

/// Calls `shlex::split`. The contract claims only that the result is
/// `shlex_words` of the line (a function of the line alone); how the words
/// are formed is left to that crate.
#[verifier::external_body]
fn shell_words(line: &str) -> (r: Option<Vec<String>>)
    ensures
        r is Some <==> shlex_words(line@) is Some,
        r matches Some(v) ==> shlex_words(line@) == Some(strings_view(v@)),
{
    shlex::split(line)
}

/// What `str::to_lowercase` returns: the Unicode lowercase mapping of every
/// character of the string.
pub uninterp spec fn unicode_lowercase(s: Seq<char>) -> Seq<char>;

/// The lowercase of an ASCII character: `A` to `Z` become `a` to `z`, every
/// other character is kept.
pub open spec fn ascii_lower(c: char) -> char {
    if 65 <= (c as u32) && (c as u32) <= 90 {
        ((c as u32) + 32) as char
    } else {
        c
    }
}

/// Calls `str::to_lowercase`. The contract claims that the result is
/// `unicode_lowercase` of the argument, and that on ASCII text it maps `A` to
/// `Z` to `a` to `z` and keeps every other character (as the Unicode tables
/// and std's documentation give it); the rest of the tables is not restated.
#[verifier::external_body]
fn lowercase(s: &str) -> (r: String)
    ensures
        r@ == unicode_lowercase(s@),
        (forall|i: int| 0 <= i < s@.len() ==> (s@[i] as u32) < 128) ==> r@ == s@.map_values(
            |c: char| ascii_lower(c),
        ),
{
    s.to_lowercase()
}

// ───── Model ─────

/// Views of a list of strings.
pub open spec fn strings_view(v: Seq<String>) -> Seq<Seq<char>> {
    v.map_values(|s: String| s@)
}

/// Views of a list of string pairs.
pub open spec fn pairs_view(v: Seq<(String, String)>) -> Seq<(Seq<char>, Seq<char>)> {
    v.map_values(|p: (String, String)| (p.0@, p.1@))
}

/// View of an optional string.
pub open spec fn opt_view(o: Option<String>) -> Option<Seq<char>> {
    match o {
        Some(s) => Some(s@),
        None => None,
    }
}

/// The abstract compose service that a command line describes.
pub struct ServiceView {
    pub service_name: Seq<char>,
    pub image: Seq<char>,
    pub container_name: Option<Seq<char>>,
    pub hostname: Option<Seq<char>>,
    pub restart: Option<Seq<char>>,
    pub networks: Seq<Seq<char>>,
    pub ports: Seq<Seq<char>>,
    pub volumes: Seq<Seq<char>>,
    pub environment: Seq<(Seq<char>, Seq<char>)>,
    pub environment_keys: Seq<Seq<char>>,
    pub labels: Seq<(Seq<char>, Seq<char>)>,
    pub devices: Seq<Seq<char>>,
    pub dns: Seq<Seq<char>>,
    pub sysctls: Seq<(Seq<char>, Seq<char>)>,
    pub entrypoint: Option<Seq<char>>,
    pub user: Option<Seq<char>>,
    pub working_dir: Option<Seq<char>>,
    pub memory: Option<Seq<char>>,
    pub cpus: Option<Seq<char>>,
    pub privileged: bool,
    pub env_file: Option<Seq<char>>,
    pub command: Seq<Seq<char>>,
}

/// A compose service under construction. The three key/value lists behave
/// as maps: a key occurs at most once and a repeated key replaces the
/// value in place.
pub struct ComposeService {
    pub service_name: String,
    pub image: String,
    pub container_name: Option<String>,
    pub hostname: Option<String>,
    pub restart: Option<String>,
    pub networks: Vec<String>,
    pub ports: Vec<String>,
    pub volumes: Vec<String>,
    pub environment: Vec<(String, String)>,
    pub environment_keys: Vec<String>,
    pub labels: Vec<(String, String)>,
    pub devices: Vec<String>,
    pub dns: Vec<String>,
    pub sysctls: Vec<(String, String)>,
    pub entrypoint: Option<String>,
    pub user: Option<String>,
    pub working_dir: Option<String>,
    pub memory: Option<String>,
    pub cpus: Option<String>,
    pub privileged: bool,
    pub env_file: Option<String>,
    pub command: Vec<String>,
}

impl View for ComposeService {
    type V = ServiceView;

    open spec fn view(&self) -> ServiceView {
        ServiceView {
            service_name: self.service_name@,
            image: self.image@,
            container_name: opt_view(self.container_name),
            hostname: opt_view(self.hostname),
            restart: opt_view(self.restart),
            networks: strings_view(self.networks@),
            ports: strings_view(self.ports@),
            volumes: strings_view(self.volumes@),
            environment: pairs_view(self.environment@),
            environment_keys: strings_view(self.environment_keys@),
            labels: pairs_view(self.labels@),
            devices: strings_view(self.devices@),
            dns: strings_view(self.dns@),
            sysctls: pairs_view(self.sysctls@),
            entrypoint: opt_view(self.entrypoint),
            user: opt_view(self.user),
            working_dir: opt_view(self.working_dir),
            memory: opt_view(self.memory),
            cpus: opt_view(self.cpus),
            privileged: self.privileged,
            env_file: opt_view(self.env_file),
            command: strings_view(self.command@),
        }
    }
}

/// The empty service named `name`.
pub open spec fn empty_service(name: Seq<char>) -> ServiceView {
    ServiceView {
        service_name: name,
        image: Seq::empty(),
        container_name: None,
        hostname: None,
        restart: None,
        networks: Seq::empty(),
        ports: Seq::empty(),
        volumes: Seq::empty(),
        environment: Seq::empty(),
        environment_keys: Seq::empty(),
        labels: Seq::empty(),
        devices: Seq::empty(),
        dns: Seq::empty(),
        sysctls: Seq::empty(),
        entrypoint: None,
        user: None,
        working_dir: None,
        memory: None,
        cpus: None,
        privileged: false,
        env_file: None,
        command: Seq::empty(),
    }
}

/// The keys of a key/value list.
pub open spec fn keys_of(m: Seq<(Seq<char>, Seq<char>)>) -> Seq<Seq<char>> {
    m.map_values(|p: (Seq<char>, Seq<char>)| p.0)
}

/// Map insertion on a key/value list: a present key gets the new value in
/// place, an absent key is appended.
pub open spec fn map_insert(m: Seq<(Seq<char>, Seq<char>)>, k: Seq<char>, v: Seq<char>) -> Seq<
    (Seq<char>, Seq<char>),
> {
    if keys_of(m).contains(k) {
        m.update(first_pos(keys_of(m), k), (k, v))
    } else {
        m.push((k, v))
    }
}

// ───── Command-line grammar ─────

/// The flags that take a value and store it in a field.
pub open spec fn option_flag(arg: Seq<char>) -> bool {
    arg == "--name"@ || arg == "--hostname"@ || arg == "--restart"@ || arg == "--network"@ || arg
        == "--entrypoint"@ || arg == "--user"@ || arg == "--workdir"@ || arg == "-w"@ || arg
        == "-p"@ || arg == "--publish"@ || arg == "-v"@ || arg == "--volume"@ || arg == "-e"@
        || arg == "--env"@ || arg == "-l"@ || arg == "--label"@ || arg == "-m"@ || arg
        == "--memory"@ || arg == "--cpus"@ || arg == "--env-file"@ || arg == "--device"@ || arg
        == "--sysctl"@ || arg == "--dns"@
}

/// The error for a value flag that ends the command line.
pub open spec fn missing_value_error(arg: Seq<char>) -> Seq<char> {
    if arg == "--workdir"@ || arg == "-w"@ {
        "--workdir requires a value"@
    } else if arg == "-p"@ || arg == "--publish"@ {
        "-p requires a value"@
    } else if arg == "-v"@ || arg == "--volume"@ {
        "-v requires a value"@
    } else if arg == "-e"@ || arg == "--env"@ {
        "-e requires a value"@
    } else if arg == "-l"@ || arg == "--label"@ {
        "--label requires a value"@
    } else if arg == "-m"@ || arg == "--memory"@ {
        "--memory requires a value"@
    } else {
        arg + " requires a value"@
    }
}

/// The service after a value flag `arg` with value `v` (memory excluded).
pub open spec fn apply_option(svc: ServiceView, arg: Seq<char>, v: Seq<char>) -> ServiceView {
    if arg == "--name"@ {
        ServiceView { container_name: Some(v), ..svc }
    } else if arg == "--hostname"@ {
        ServiceView { hostname: Some(v), ..svc }
    } else if arg == "--restart"@ {
        ServiceView { restart: Some(v), ..svc }
    } else if arg == "--network"@ {
        ServiceView { networks: svc.networks.push(v), ..svc }
    } else if arg == "--entrypoint"@ {
        ServiceView { entrypoint: Some(v), ..svc }
    } else if arg == "--user"@ {
        ServiceView { user: Some(v), ..svc }
    } else if arg == "--workdir"@ || arg == "-w"@ {
        ServiceView { working_dir: Some(v), ..svc }
    } else if arg == "-p"@ || arg == "--publish"@ {
        ServiceView { ports: svc.ports.push(v), ..svc }
    } else if arg == "-v"@ || arg == "--volume"@ {
        ServiceView { volumes: svc.volumes.push(v), ..svc }
    } else if arg == "-e"@ || arg == "--env"@ {
        match split_once(v, '=') {
            Some((k, x)) => ServiceView { environment: map_insert(svc.environment, k, x), ..svc },
            None => ServiceView { environment_keys: svc.environment_keys.push(v), ..svc },
        }
    } else if arg == "-l"@ || arg == "--label"@ {
        match split_once(v, '=') {
            Some((k, x)) => ServiceView { labels: map_insert(svc.labels, k, x), ..svc },
            None => svc,
        }
    } else if arg == "--cpus"@ {
        ServiceView { cpus: Some(v), ..svc }
    } else if arg == "--env-file"@ {
        ServiceView { env_file: Some(v), ..svc }
    } else if arg == "--device"@ {
        ServiceView { devices: svc.devices.push(v), ..svc }
    } else if arg == "--sysctl"@ {
        match split_once(v, '=') {
            Some((k, x)) => ServiceView { sysctls: map_insert(svc.sysctls, k, x), ..svc },
            None => svc,
        }
    } else {
        ServiceView { dns: svc.dns.push(v), ..svc }
    }
}

/// Flags that are passed over together with the word after them.
pub open spec fn skipped_pair_flag(arg: Seq<char>) -> bool {
    arg == "--cap-add"@ || arg == "--cap-drop"@ || arg == "--security-opt"@ || arg
        == "--shm-size"@ || arg == "--tmpfs"@
}

/// Any other word that is a flag: it starts with `-` and has at least two
/// characters.
pub open spec fn other_flag(arg: Seq<char>) -> bool {
    arg.len() >= 2 && arg[0] == '-'
}

/// The flags among them that may take the next word as their value: a long
/// flag (`--name`) or a single short one (`-x`, one ASCII character). A
/// cluster of short flags such as `-it` carries everything itself.
pub open spec fn flag_with_value(arg: Seq<char>) -> bool {
    "--"@.is_prefix_of(arg) || (arg.len() == 2 && arg[0] == '-' && (arg[1] as u32) < 128)
}

/// Reads the words after `run`, from position `i`, into `svc`.
pub open spec fn run_args(args: Seq<Seq<char>>, i: nat, svc: ServiceView) -> Result<
    ServiceView,
    Seq<char>,
>
    decreases args.len() + 1 - i,
{
    if i >= args.len() {
        Err("No Docker image specified"@)
    } else {
        let arg = args[i as int];
        let has_next = i + 1 < args.len();
        let next = args[i + 1 as int];
        if arg == "-d"@ || arg == "--detach"@ {
            run_args(args, i + 1, svc)
        } else if arg == "-m"@ || arg == "--memory"@ {
            if has_next {
                match memory_mb(next) {
                    Ok(n) => run_args(
                        args,
                        i + 2,
                        ServiceView { memory: Some(decimal(n) + "m"@), ..svc },
                    ),
                    Err(e) => Err(e),
                }
            } else {
                Err(missing_value_error(arg))
            }
        } else if option_flag(arg) {
            if has_next {
                run_args(args, i + 2, apply_option(svc, arg, next))
            } else {
                Err(missing_value_error(arg))
            }
        } else if arg == "--privileged"@ {
            run_args(args, i + 1, ServiceView { privileged: true, ..svc })
        } else if skipped_pair_flag(arg) {
            run_args(args, i + 2, svc)
        } else if other_flag(arg) {
            if flag_with_value(arg) && has_next && !"-"@.is_prefix_of(next) {
                run_args(args, i + 2, svc)
            } else {
                run_args(args, i + 1, svc)
            }
        } else {
            Ok(ServiceView { image: arg, command: args.skip(i + 1 as int), ..svc })
        }
    }
}

/// The compose document for a shell-split `docker run` command line.
pub open spec fn compose_for_words(args: Seq<Seq<char>>, name: Seq<char>) -> Result<
    Seq<char>,
    Seq<char>,
> {
    if args.len() == 0 {
        Err("Empty command"@)
    } else if !args.contains("run"@) {
        Err("Not a docker run command (missing 'run')"@)
    } else {
        let rest = args.skip(first_pos(args, "run"@) + 1);
        if rest.len() == 0 {
            Err("No arguments after 'run'"@)
        } else {
            match run_args(rest, 0, empty_service(name)) {
                Ok(svc) => Ok(yaml(svc)),
                Err(e) => Err(e),
            }
        }
    }
}

// ───── YAML rendering ─────

/// `"<prefix><value>\n"` when the value is present.
pub open spec fn opt_line(prefix: Seq<char>, o: Option<Seq<char>>) -> Seq<char> {
    match o {
        Some(v) => prefix + v + "\n"@,
        None => Seq::empty(),
    }
}

/// One `"      - <item>\n"` line per item.
pub open spec fn item_lines(items: Seq<Seq<char>>) -> Seq<char>
    decreases items.len(),
{
    if items.len() == 0 {
        Seq::empty()
    } else {
        item_lines(items.drop_last()) + "      - "@ + items.last() + "\n"@
    }
}

/// One `"      <key>: <value>\n"` line per pair.
pub open spec fn pair_lines(ps: Seq<(Seq<char>, Seq<char>)>) -> Seq<char>
    decreases ps.len(),
{
    if ps.len() == 0 {
        Seq::empty()
    } else {
        pair_lines(ps.drop_last()) + "      "@ + ps.last().0 + ": "@ + ps.last().1 + "\n"@
    }
}

/// One `"      <key>\n"` line per key.
pub open spec fn key_lines(ks: Seq<Seq<char>>) -> Seq<char>
    decreases ks.len(),
{
    if ks.len() == 0 {
        Seq::empty()
    } else {
        key_lines(ks.drop_last()) + "      "@ + ks.last() + "\n"@
    }
}

/// A list section: its header and one line per item, or nothing when empty.
pub open spec fn list_section(header: Seq<char>, items: Seq<Seq<char>>) -> Seq<char> {
    if items.len() == 0 {
        Seq::empty()
    } else {
        header + item_lines(items)
    }
}

/// A key/value section: its header and one line per pair, or nothing.
pub open spec fn pair_section(header: Seq<char>, ps: Seq<(Seq<char>, Seq<char>)>) -> Seq<char> {
    if ps.len() == 0 {
        Seq::empty()
    } else {
        header + pair_lines(ps)
    }
}

/// The environment section: pairs first, then bare keys.
pub open spec fn env_section(env: Seq<(Seq<char>, Seq<char>)>, keys: Seq<Seq<char>>) -> Seq<char> {
    if env.len() == 0 && keys.len() == 0 {
        Seq::empty()
    } else {
        "    environment:\n"@ + pair_lines(env) + key_lines(keys)
    }
}

/// The scalar lines of the service, in document order.
pub open spec fn scalar_lines(svc: ServiceView) -> Seq<char> {
    opt_line("    container_name: "@, svc.container_name) + opt_line(
        "    hostname: "@,
        svc.hostname,
    ) + opt_line("    restart: "@, svc.restart) + opt_line("    user: "@, svc.user) + opt_line(
        "    working_dir: "@,
        svc.working_dir,
    ) + (if svc.privileged {
        "    privileged: true\n"@
    } else {
        Seq::empty()
    }) + opt_line("    mem_limit: "@, svc.memory) + opt_line("    cpus: "@, svc.cpus) + opt_line(
        "    entrypoint: "@,
        svc.entrypoint,
    ) + opt_line("    env_file: "@, svc.env_file)
}

/// The list sections of the service, in document order.
pub open spec fn section_lines(svc: ServiceView) -> Seq<char> {
    list_section("    ports:\n"@, svc.ports) + list_section("    volumes:\n"@, svc.volumes)
        + list_section("    devices:\n"@, svc.devices) + list_section("    dns:\n"@, svc.dns)
        + env_section(svc.environment, svc.environment_keys) + pair_section(
        "    labels:\n"@,
        svc.labels,
    ) + pair_section("    sysctls:\n"@, svc.sysctls) + list_section(
        "    networks:\n"@,
        svc.networks,
    ) + list_section("    command:\n"@, svc.command)
}

/// The compose document of a service.
pub open spec fn yaml(svc: ServiceView) -> Seq<char> {
    "services:\n  "@ + svc.service_name + ":\n"@ + "    image: "@ + svc.image + "\n"@
        + scalar_lines(svc) + section_lines(svc)
}

// ───── Memory sizes ─────

/// An ASCII digit or a dot.
pub open spec fn is_num_char(c: char) -> bool {
    ('0' <= c && c <= '9') || c == '.'
}

/// Length of the leading run of digits and dots.
pub open spec fn num_prefix_len(t: Seq<char>) -> nat
    decreases t.len(),
{
    if t.len() > 0 && is_num_char(t[0]) {
        1 + num_prefix_len(t.drop_first())
    } else {
        0
    }
}

/// Value of a string of ASCII digits.
pub open spec fn digits_value(ds: Seq<char>) -> nat
    decreases ds.len(),
{
    if ds.len() == 0 {
        0
    } else {
        10 * digits_value(ds.drop_last()) + ((ds.last() as u32) - ('0' as u32)) as nat
    }
}

/// A decimal number as `f64::from_str` accepts it when it is made of digits
/// and dots only: at most one dot and at least one digit.
pub open spec fn valid_number(n: Seq<char>) -> bool {
    match split_once(n, '.') {
        Some((a, b)) => !b.contains('.') && a.len() + b.len() > 0,
        None => n.len() > 0,
    }
}

/// The digits before the dot.
pub open spec fn int_digits(n: Seq<char>) -> Seq<char> {
    match split_once(n, '.') {
        Some((a, _)) => a,
        None => n,
    }
}

/// The digits after the dot.
pub open spec fn frac_digits(n: Seq<char>) -> Seq<char> {
    match split_once(n, '.') {
        Some((_, b)) => b,
        None => Seq::empty(),
    }
}

/// The first ten fractional digits, padded with zeros, as a number: the
/// fraction in units of 10^-10.
pub open spec fn frac_ten(fs: Seq<char>) -> nat {
    digits_value(pad_ten(fs))
}

/// The first ten digits, padded with `'0'` to ten.
pub open spec fn pad_ten(fs: Seq<char>) -> Seq<char> {
    if fs.len() >= 10 {
        fs.take(10)
    } else {
        fs + Seq::new((10 - fs.len()) as nat, |_i: int| '0')
    }
}

/// The largest value a `u64` holds.
pub open spec fn saturate(x: nat) -> nat {
    if x > u64::MAX {
        u64::MAX as nat
    } else {
        x
    }
}

/// Megabytes for a lowercased, trimmed size with a valid numeric prefix `n`:
/// the floor of the size in MiB, at least 1 for `k` and for bytes, and at
/// most `u64::MAX`.
pub open spec fn size_mb(t: Seq<char>, n: Seq<char>) -> nat {
    let ip = digits_value(int_digits(n));
    if "g"@.is_suffix_of(t) || "gb"@.is_suffix_of(t) {
        saturate(ip * 1024 + frac_ten(frac_digits(n)) / 9765625)
    } else if "m"@.is_suffix_of(t) || "mb"@.is_suffix_of(t) {
        saturate(ip)
    } else if "k"@.is_suffix_of(t) || "kb"@.is_suffix_of(t) {
        saturate(
            if ip >= 1024 {
                ip / 1024
            } else {
                1
            },
        )
    } else {
        saturate(
            if ip >= 1048576 {
                ip / 1048576
            } else {
                1
            },
        )
    }
}

/// What a memory flag value denotes in megabytes, or the error for it.
pub open spec fn memory_mb(s: Seq<char>) -> Result<nat, Seq<char>> {
    lowered_memory_mb(unicode_lowercase(trim(s)))
}

/// Whether every character of a text is ASCII.
pub open spec fn is_ascii_text(s: Seq<char>) -> bool {
    forall|i: int| 0 <= i < s.len() ==> (s[i] as u32) < 128
}

/// The megabytes of a trimmed, lowercased memory value, or the error.
pub open spec fn lowered_memory_mb(t: Seq<char>) -> Result<nat, Seq<char>> {
    let n = t.take(num_prefix_len(t) as int);
    if valid_number(n) {
        Ok(size_mb(t, n))
    } else {
        Err("Invalid memory value: "@ + t)
    }
}

/// The bound up to which integer parts are tracked exactly; every size at
/// or above it saturates.
pub open spec fn cap() -> nat {
    0x10000000000000000000000000
}

/// Is `c` an ASCII digit or a dot.
fn is_num_char_exec(c: char) -> (r: bool)
    ensures
        r == is_num_char(c),
{
    ('0' <= c && c <= '9') || c == '.'
}

/// `min(digits_value(ds), cap())` for a string of ASCII digits.
fn capped_digits_value(ds: &[char]) -> (r: u128)
    requires
        forall|j: int| 0 <= j < ds@.len() ==> '0' <= #[trigger] ds@[j] <= '9',
    ensures
        r as nat == if digits_value(ds@) >= cap() {
            cap()
        } else {
            digits_value(ds@)
        },
{
    let c: u128 = 0x10000000000000000000000000;
    let mut v: u128 = 0;
    let mut j: usize = 0;
    assert(ds@.take(0) =~= Seq::<char>::empty());
    while j < ds.len()
        invariant
            j <= ds@.len(),
            c == cap(),
            forall|i: int| 0 <= i < ds@.len() ==> '0' <= #[trigger] ds@[i] <= '9',
            v as nat == if digits_value(ds@.take(j as int)) >= cap() {
                cap()
            } else {
                digits_value(ds@.take(j as int))
            },
        decreases ds@.len() - j,
    {
        let d = (ds[j] as u32) - ('0' as u32);
        proof {
            assert(ds@.take(j + 1).drop_last() =~= ds@.take(j as int));
            assert(ds@.take(j + 1).last() == ds@[j as int]);
        }
        if v >= c {
            v = c;
        } else {
            let w = v * 10 + d as u128;
            v = if w >= c {
                c
            } else {
                w
            };
        }
        j = j + 1;
    }
    assert(ds@.take(j as int) =~= ds@);
    v
}

/// `digits_value(pad_ten(fs))` for a string of ASCII digits.
fn frac_ten_exec(fs: &[char]) -> (r: u64)
    requires
        forall|j: int| 0 <= j < fs@.len() ==> '0' <= #[trigger] fs@[j] <= '9',
    ensures
        r as nat == frac_ten(fs@),
        r < 10000000000,
{
    let ghost p = pad_ten(fs@);
    assert(p.len() == 10);
    assert forall|j: int| 0 <= j < 10 implies #[trigger] p[j] == (if j < fs@.len() {
        fs@[j]
    } else {
        '0'
    }) by {}
    let mut v: u64 = 0;
    let mut j: usize = 0;
    assert(p.take(0) =~= Seq::<char>::empty());
    while j < 10
        invariant
            j <= 10,
            p == pad_ten(fs@),
            p.len() == 10,
            forall|i: int| 0 <= i < 10 ==> #[trigger] p[i] == (if i < fs@.len() {
                fs@[i]
            } else {
                '0'
            }),
            forall|i: int| 0 <= i < fs@.len() ==> '0' <= #[trigger] fs@[i] <= '9',
            v as nat == digits_value(p.take(j as int)),
            v < pow10(j as nat),
        decreases 10 - j,
    {
        let d: u64 = if j < fs.len() {
            (fs[j] as u32 - '0' as u32) as u64
        } else {
            0
        };
        proof {
            assert(p.take(j + 1).drop_last() =~= p.take(j as int));
            assert(p.take(j + 1).last() == p[j as int]);
            assert(pow10((j + 1) as nat) == 10 * pow10(j as nat));
            lemma_pow10_bound((j + 1) as nat);
        }
        v = v * 10 + d;
        j = j + 1;
    }
    assert(p.take(10) =~= p);
    proof {
        lemma_pow10_ten();
    }
    v
}

/// Powers of ten.
pub open spec fn pow10(n: nat) -> nat
    decreases n,
{
    if n == 0 {
        1
    } else {
        10 * pow10((n - 1) as nat)
    }
}

/// The tenth power of ten.
proof fn lemma_pow10_ten()
    ensures
        pow10(10) == 10000000000,
{
    reveal_with_fuel(pow10, 11);
}

/// Powers of ten up to the tenth fit comfortably in a `u64`.
proof fn lemma_pow10_bound(n: nat)
    requires
        n <= 10,
    ensures
        pow10(n) <= 10000000000,
{
    lemma_pow10_mono(n, 10);
    lemma_pow10_ten();
}

/// Powers of ten grow.
proof fn lemma_pow10_mono(a: nat, b: nat)
    requires
        a <= b,
    ensures
        pow10(a) <= pow10(b),
    decreases b,
{
    if a < b {
        lemma_pow10_mono(a, (b - 1) as nat);
    }
}

/// `min(x, u64::MAX)` in executable form.
fn saturate_exec(x: u128) -> (r: u64)
    ensures
        r as nat == saturate(x as nat),
{
    if x > 0xffff_ffff_ffff_ffff {
        0xffff_ffff_ffff_ffff
    } else {
        x as u64
    }
}

/// Megabytes denoted by a memory flag value such as `512m`, `1g` or `1024k`;
/// a bare number counts bytes. `k` and byte sizes are at least 1.
pub fn parse_memory_mb(s: &str) -> (r: Result<u64, String>)
    ensures
        match r {
            Ok(n) => memory_mb(s@) == Ok::<nat, Seq<char>>(n as nat),
            Err(e) => memory_mb(s@) == Err::<nat, Seq<char>>(e@),
        },
        is_ascii_text(trim(s@)) ==> match r {
            Ok(n) => lowered_memory_mb(trim(s@).map_values(|c: char| ascii_lower(c))) == Ok::<
                nat,
                Seq<char>,
            >(n as nat),
            Err(e) => lowered_memory_mb(trim(s@).map_values(|c: char| ascii_lower(c))) == Err::<
                nat,
                Seq<char>,
            >(e@),
        },
{
    let sc = chars_of(s);
    let tc = trim_chars(sc.as_slice());
    let ts = string_of(tc.as_slice());
    let low = lowercase(ts.as_str());
    let t = chars_of(low.as_str());
    let mut k: usize = 0;
    assert(t@.skip(0) =~= t@);
    while k < t.len() && is_num_char_exec(t[k])
        invariant
            k <= t@.len(),
            num_prefix_len(t@) == k + num_prefix_len(t@.skip(k as int)),
            forall|j: int| 0 <= j < k ==> is_num_char(#[trigger] t@[j]),
        decreases t@.len() - k,
    {
        proof {
            assert(t@.skip(k as int).drop_first() =~= t@.skip(k + 1));
        }
        k = k + 1;
    }
    let n = slice_chars(t.as_slice(), 0, k);
    proof {
        assert(num_prefix_len(t@.skip(k as int)) == 0);
        assert(n@ == t@.take(num_prefix_len(t@) as int));
    }
    let (ints, fracs, ok) = match split_once_char(n.as_slice(), '.') {
        Some((a, b)) => {
            let ok = !contains_char(b.as_slice(), '.') && (a.len() > 0 || b.len() > 0);
            (a, b, ok)
        },
        None => {
            let ok = n.len() > 0;
            (slice_chars(n.as_slice(), 0, n.len()), Vec::new(), ok)
        },
    };
    proof {
        assert(n@.subrange(0, n@.len() as int) =~= n@);
        assert(ints@ == int_digits(n@));
        assert(fracs@ == frac_digits(n@));
    }
    if !ok {
        let mut msg = chars_of("Invalid memory value: ");
        push_chars(&mut msg, t.as_slice());
        return Err(string_of(msg.as_slice()));
    }
    proof {
        match split_once(n@, '.') {
            Some((a, b)) => {
                let i = first_pos(n@, '.');
                lemma_first_pos(n@, '.');
                assert forall|j: int| 0 <= j < a.len() implies '0' <= #[trigger] a[j] <= '9' by {
                    assert(a[j] == n@[j]);
                    assert(n@[j] == t@[j]);
                }
                assert forall|j: int| 0 <= j < b.len() implies '0' <= #[trigger] b[j] <= '9' by {
                    assert(b[j] == n@[i + 1 + j]);
                    assert(n@[i + 1 + j] == t@[i + 1 + j]);
                    assert(b[j] != '.');
                }
            },
            None => {
                assert forall|j: int| 0 <= j < n@.len() implies '0' <= #[trigger] n@[j] <= '9' by {
                    assert(n@[j] == t@[j]);
                    assert(n@[j] != '.');
                }
            },
        }
    }
    let ip = capped_digits_value(ints.as_slice());
    let fr = frac_ten_exec(fracs.as_slice());
    let ghost ipv = digits_value(ints@);
    let r: u64 = if ends_with_str(t.as_slice(), "g") || ends_with_str(t.as_slice(), "gb") {
        proof {
            if ipv >= cap() {
                assert(ipv * 1024 >= cap() * 1024) by (nonlinear_arith)
                    requires
                        ipv >= cap(),
                ;
            }
        }
        saturate_exec(ip * 1024 + (fr / 9765625) as u128)
    } else if ends_with_str(t.as_slice(), "m") || ends_with_str(t.as_slice(), "mb") {
        saturate_exec(ip)
    } else if ends_with_str(t.as_slice(), "k") || ends_with_str(t.as_slice(), "kb") {
        proof {
            if ipv >= cap() {
                assert(ipv / 1024 >= cap() / 1024) by (nonlinear_arith)
                    requires
                        ipv >= cap(),
                ;
            }
        }
        saturate_exec(
            if ip >= 1024 {
                ip / 1024
            } else {
                1
            },
        )
    } else {
        proof {
            if ipv >= cap() {
                assert(ipv / 1048576 >= cap() / 1048576) by (nonlinear_arith)
                    requires
                        ipv >= cap(),
                ;
            }
        }
        saturate_exec(
            if ip >= 1048576 {
                ip / 1048576
            } else {
                1
            },
        )
    };
    Ok(r)
}

// ───── Executable code ─────

/// View of a `Result` of strings.
pub open spec fn result_view(r: Result<String, String>) -> Result<Seq<char>, Seq<char>> {
    match r {
        Ok(s) => Ok(s@),
        Err(e) => Err(e@),
    }
}

/// An owned copy of a string slice.
pub fn owned(s: &str) -> (r: String)
    ensures
        r@ == s@,
{
    s.to_owned()
}

/// Copies of `args[from..]`.
fn tail_strings(args: &Vec<String>, from: usize) -> (r: Vec<String>)
    requires
        from <= args@.len(),
    ensures
        strings_view(r@) == strings_view(args@).skip(from as int),
{
    let mut out: Vec<String> = Vec::new();
    let mut j: usize = from;
    while j < args.len()
        invariant
            from <= j <= args@.len(),
            strings_view(out@) == strings_view(args@).subrange(from as int, j as int),
        decreases args@.len() - j,
    {
        let s = args[j].clone();
        proof {
            assert(strings_view(out@.push(s)) == strings_view(out@).push(s@));
            assert(strings_view(args@).subrange(from as int, j + 1) == strings_view(args@).subrange(
                from as int,
                j as int,
            ).push(args@[j as int]@));
        }
        out.push(s);
        j = j + 1;
    }
    out
}

/// Pushes a string onto a list of strings.
pub(crate) fn push_string(v: &mut Vec<String>, s: String)
    ensures
        strings_view(final(v)@) == strings_view(old(v)@).push(s@),
{
    v.push(s);
    proof {
        assert(strings_view(v@) =~= strings_view(old(v)@).push(s@));
    }
}

/// Map insertion on a key/value list.
pub fn insert_pair(m: &mut Vec<(String, String)>, k: String, v: String)
    ensures
        pairs_view(final(m)@) == map_insert(pairs_view(old(m)@), k@, v@),
{
    let ghost ks = keys_of(pairs_view(m@));
    let mut i: usize = 0;
    while i < m.len()
        invariant
            i <= m@.len(),
            m@ == old(m)@,
            ks == keys_of(pairs_view(m@)),
            ks.len() == m@.len(),
            forall|j: int| 0 <= j < i ==> ks[j] != k@,
        decreases m@.len() - i,
    {
        let kc = chars_of(m[i].0.as_str());
        let kk = chars_of(k.as_str());
        if chars_eq(kc.as_slice(), kk.as_slice()) {
            proof {
                assert(ks[i as int] == k@);
                assert(is_first(ks, k@, i as int));
                lemma_first_unique(ks, k@, i as int);
                assert(ks.contains(k@));
            }
            let ghost before = pairs_view(m@);
            m.set(i, (k, v));
            proof {
                assert(pairs_view(m@) =~= before.update(i as int, (k@, v@)));
            }
            return ;
        }
        i = i + 1;
    }
    proof {
        assert(!ks.contains(k@));
    }
    let ghost before = pairs_view(m@);
    m.push((k, v));
    proof {
        assert(pairs_view(m@) =~= before.push((k@, v@)));
    }
}

impl ComposeService {
    /// The empty service named `name`.
    pub fn new(name: &str) -> (r: Self)
        ensures
            r@ == empty_service(name@),
    {
        let r = ComposeService {
            service_name: owned(name),
            image: String::new(),
            container_name: None,
            hostname: None,
            restart: None,
            networks: Vec::new(),
            ports: Vec::new(),
            volumes: Vec::new(),
            environment: Vec::new(),
            environment_keys: Vec::new(),
            labels: Vec::new(),
            devices: Vec::new(),
            dns: Vec::new(),
            sysctls: Vec::new(),
            entrypoint: None,
            user: None,
            working_dir: None,
            memory: None,
            cpus: None,
            privileged: false,
            env_file: None,
            command: Vec::new(),
        };
        proof {
            assert(strings_view(r.networks@) =~= Seq::empty());
            assert(pairs_view(r.environment@) =~= Seq::empty());
            assert(r@ =~= empty_service(name@));
        }
        r
    }

    /// The compose document of this service.
    pub fn to_yaml(&self) -> (r: String)
        ensures
            r@ == yaml(self@),
    {
        let mut y: Vec<char> = Vec::new();
        push_str(&mut y, "services:\n  ");
        push_str(&mut y, self.service_name.as_str());
        push_str(&mut y, ":\n");
        push_str(&mut y, "    image: ");
        push_str(&mut y, self.image.as_str());
        push_str(&mut y, "\n");
        let ghost head = y@;
        push_scalar_lines(&mut y, self);
        let ghost mid = y@;
        push_section_lines(&mut y, self);
        proof {
            assert(head =~= "services:\n  "@ + self.service_name@ + ":\n"@ + "    image: "@
                + self.image@ + "\n"@);
            assert(y@ =~= yaml(self@));
        }
        string_of(y.as_slice())
    }
}

/// Appends `scalar_lines(svc)`.
fn push_scalar_lines(y: &mut Vec<char>, svc: &ComposeService)
    ensures
        final(y)@ == old(y)@ + scalar_lines(svc@),
{
    let ghost o = y@;
    let ghost v = svc@;
    push_opt_line(y, "    container_name: ", &svc.container_name);
    let ghost acc = opt_line("    container_name: "@, v.container_name);
    push_opt_line(y, "    hostname: ", &svc.hostname);
    proof {
        lemma_add_assoc(o, acc, opt_line("    hostname: "@, v.hostname));
    }
    let ghost acc = acc + opt_line("    hostname: "@, v.hostname);
    push_opt_line(y, "    restart: ", &svc.restart);
    proof {
        lemma_add_assoc(o, acc, opt_line("    restart: "@, v.restart));
    }
    let ghost acc = acc + opt_line("    restart: "@, v.restart);
    push_opt_line(y, "    user: ", &svc.user);
    proof {
        lemma_add_assoc(o, acc, opt_line("    user: "@, v.user));
    }
    let ghost acc = acc + opt_line("    user: "@, v.user);
    push_opt_line(y, "    working_dir: ", &svc.working_dir);
    proof {
        lemma_add_assoc(o, acc, opt_line("    working_dir: "@, v.working_dir));
    }
    let ghost acc = acc + opt_line("    working_dir: "@, v.working_dir);
    let ghost priv_line = if v.privileged {
        "    privileged: true\n"@
    } else {
        Seq::<char>::empty()
    };
    if svc.privileged {
        push_str(y, "    privileged: true\n");
    } else {
        proof {
            assert(y@ =~= y@ + Seq::<char>::empty());
        }
    }
    proof {
        lemma_add_assoc(o, acc, priv_line);
    }
    let ghost acc = acc + priv_line;
    push_opt_line(y, "    mem_limit: ", &svc.memory);
    proof {
        lemma_add_assoc(o, acc, opt_line("    mem_limit: "@, v.memory));
    }
    let ghost acc = acc + opt_line("    mem_limit: "@, v.memory);
    push_opt_line(y, "    cpus: ", &svc.cpus);
    proof {
        lemma_add_assoc(o, acc, opt_line("    cpus: "@, v.cpus));
    }
    let ghost acc = acc + opt_line("    cpus: "@, v.cpus);
    push_opt_line(y, "    entrypoint: ", &svc.entrypoint);
    proof {
        lemma_add_assoc(o, acc, opt_line("    entrypoint: "@, v.entrypoint));
    }
    let ghost acc = acc + opt_line("    entrypoint: "@, v.entrypoint);
    push_opt_line(y, "    env_file: ", &svc.env_file);
    proof {
        lemma_add_assoc(o, acc, opt_line("    env_file: "@, v.env_file));
    }
}

/// Appends `section_lines(svc)`.
fn push_section_lines(y: &mut Vec<char>, svc: &ComposeService)
    ensures
        final(y)@ == old(y)@ + section_lines(svc@),
{
    let ghost o = y@;
    let ghost v = svc@;
    push_list_section(y, "    ports:\n", &svc.ports);
    let ghost acc = list_section("    ports:\n"@, v.ports);
    push_list_section(y, "    volumes:\n", &svc.volumes);
    proof {
        lemma_add_assoc(o, acc, list_section("    volumes:\n"@, v.volumes));
    }
    let ghost acc = acc + list_section("    volumes:\n"@, v.volumes);
    push_list_section(y, "    devices:\n", &svc.devices);
    proof {
        lemma_add_assoc(o, acc, list_section("    devices:\n"@, v.devices));
    }
    let ghost acc = acc + list_section("    devices:\n"@, v.devices);
    push_list_section(y, "    dns:\n", &svc.dns);
    proof {
        lemma_add_assoc(o, acc, list_section("    dns:\n"@, v.dns));
    }
    let ghost acc = acc + list_section("    dns:\n"@, v.dns);
    push_env_section(y, &svc.environment, &svc.environment_keys);
    proof {
        lemma_add_assoc(o, acc, env_section(v.environment, v.environment_keys));
    }
    let ghost acc = acc + env_section(v.environment, v.environment_keys);
    push_pair_section(y, "    labels:\n", &svc.labels);
    proof {
        lemma_add_assoc(o, acc, pair_section("    labels:\n"@, v.labels));
    }
    let ghost acc = acc + pair_section("    labels:\n"@, v.labels);
    push_pair_section(y, "    sysctls:\n", &svc.sysctls);
    proof {
        lemma_add_assoc(o, acc, pair_section("    sysctls:\n"@, v.sysctls));
    }
    let ghost acc = acc + pair_section("    sysctls:\n"@, v.sysctls);
    push_list_section(y, "    networks:\n", &svc.networks);
    proof {
        lemma_add_assoc(o, acc, list_section("    networks:\n"@, v.networks));
    }
    let ghost acc = acc + list_section("    networks:\n"@, v.networks);
    push_list_section(y, "    command:\n", &svc.command);
    proof {
        lemma_add_assoc(o, acc, list_section("    command:\n"@, v.command));
    }
}

/// Appends `opt_line(prefix, o)`.
fn push_opt_line(y: &mut Vec<char>, prefix: &str, o: &Option<String>)
    ensures
        final(y)@ == old(y)@ + opt_line(prefix@, opt_view(*o)),
{
    match o {
        Some(v) => {
            push_str(y, prefix);
            push_str(y, v.as_str());
            push_str(y, "\n");
            proof {
                assert(y@ =~= old(y)@ + (prefix@ + v@ + "\n"@));
            }
        },
        None => {
            proof {
                assert(y@ =~= old(y)@ + Seq::<char>::empty());
            }
        },
    }
}

/// Appends `item_lines(items)`.
fn push_item_lines(y: &mut Vec<char>, items: &Vec<String>)
    ensures
        final(y)@ == old(y)@ + item_lines(strings_view(items@)),
{
    let ghost sv = strings_view(items@);
    let mut j: usize = 0;
    proof {
        assert(sv.take(0) =~= Seq::<Seq<char>>::empty());
        assert(y@ =~= old(y)@ + item_lines(sv.take(0)));
    }
    while j < items.len()
        invariant
            j <= items@.len(),
            sv == strings_view(items@),
            y@ == old(y)@ + item_lines(sv.take(j as int)),
        decreases items@.len() - j,
    {
        let ghost before = y@;
        push_str(y, "      - ");
        push_str(y, items[j].as_str());
        push_str(y, "\n");
        proof {
            assert(sv.take(j + 1).drop_last() =~= sv.take(j as int));
            assert(sv.take(j + 1).last() == items@[j as int]@);
            assert(y@ =~= old(y)@ + item_lines(sv.take(j + 1)));
        }
        j = j + 1;
    }
    proof {
        assert(sv.take(j as int) =~= sv);
    }
}

/// Appends `key_lines(keys)`.
fn push_key_lines(y: &mut Vec<char>, keys: &Vec<String>)
    ensures
        final(y)@ == old(y)@ + key_lines(strings_view(keys@)),
{
    let ghost sv = strings_view(keys@);
    let mut j: usize = 0;
    proof {
        assert(sv.take(0) =~= Seq::<Seq<char>>::empty());
        assert(y@ =~= old(y)@ + key_lines(sv.take(0)));
    }
    while j < keys.len()
        invariant
            j <= keys@.len(),
            sv == strings_view(keys@),
            y@ == old(y)@ + key_lines(sv.take(j as int)),
        decreases keys@.len() - j,
    {
        push_str(y, "      ");
        push_str(y, keys[j].as_str());
        push_str(y, "\n");
        proof {
            assert(sv.take(j + 1).drop_last() =~= sv.take(j as int));
            assert(sv.take(j + 1).last() == keys@[j as int]@);
            assert(y@ =~= old(y)@ + key_lines(sv.take(j + 1)));
        }
        j = j + 1;
    }
    proof {
        assert(sv.take(j as int) =~= sv);
    }
}

/// Appends `pair_lines(ps)`.
fn push_pair_lines(y: &mut Vec<char>, ps: &Vec<(String, String)>)
    ensures
        final(y)@ == old(y)@ + pair_lines(pairs_view(ps@)),
{
    let ghost pv = pairs_view(ps@);
    let mut j: usize = 0;
    proof {
        assert(pv.take(0) =~= Seq::<(Seq<char>, Seq<char>)>::empty());
        assert(y@ =~= old(y)@ + pair_lines(pv.take(0)));
    }
    while j < ps.len()
        invariant
            j <= ps@.len(),
            pv == pairs_view(ps@),
            y@ == old(y)@ + pair_lines(pv.take(j as int)),
        decreases ps@.len() - j,
    {
        push_str(y, "      ");
        push_str(y, ps[j].0.as_str());
        push_str(y, ": ");
        push_str(y, ps[j].1.as_str());
        push_str(y, "\n");
        proof {
            assert(pv.take(j + 1).drop_last() =~= pv.take(j as int));
            assert(pv.take(j + 1).last() == (ps@[j as int].0@, ps@[j as int].1@));
            assert(y@ =~= old(y)@ + pair_lines(pv.take(j + 1)));
        }
        j = j + 1;
    }
    proof {
        assert(pv.take(j as int) =~= pv);
    }
}

/// Appends `list_section(header, items)`.
pub(crate) fn push_list_section(y: &mut Vec<char>, header: &str, items: &Vec<String>)
    ensures
        final(y)@ == old(y)@ + list_section(header@, strings_view(items@)),
{
    if items.len() == 0 {
        proof {
            assert(y@ =~= old(y)@ + Seq::<char>::empty());
        }
    } else {
        push_str(y, header);
        push_item_lines(y, items);
        proof {
            assert(y@ =~= old(y)@ + (header@ + item_lines(strings_view(items@))));
        }
    }
}

/// Appends `pair_section(header, ps)`.
fn push_pair_section(y: &mut Vec<char>, header: &str, ps: &Vec<(String, String)>)
    ensures
        final(y)@ == old(y)@ + pair_section(header@, pairs_view(ps@)),
{
    if ps.len() == 0 {
        proof {
            assert(y@ =~= old(y)@ + Seq::<char>::empty());
        }
    } else {
        push_str(y, header);
        push_pair_lines(y, ps);
        proof {
            assert(y@ =~= old(y)@ + (header@ + pair_lines(pairs_view(ps@))));
        }
    }
}

/// Appends `env_section(env, keys)`.
fn push_env_section(y: &mut Vec<char>, env: &Vec<(String, String)>, keys: &Vec<String>)
    ensures
        final(y)@ == old(y)@ + env_section(pairs_view(env@), strings_view(keys@)),
{
    if env.len() == 0 && keys.len() == 0 {
        proof {
            assert(y@ =~= old(y)@ + Seq::<char>::empty());
        }
    } else {
        push_str(y, "    environment:\n");
        push_pair_lines(y, env);
        push_key_lines(y, keys);
        proof {
            assert(y@ =~= old(y)@ + ("    environment:\n"@ + pair_lines(pairs_view(env@))
                + key_lines(strings_view(keys@))));
        }
    }
}

/// `option_flag` in executable form.
fn is_option_flag(a: &[char]) -> (r: bool)
    ensures
        r == option_flag(a@),
{
    eq_str(a, "--name") || eq_str(a, "--hostname") || eq_str(a, "--restart") || eq_str(
        a,
        "--network",
    ) || eq_str(a, "--entrypoint") || eq_str(a, "--user") || eq_str(a, "--workdir") || eq_str(
        a,
        "-w",
    ) || eq_str(a, "-p") || eq_str(a, "--publish") || eq_str(a, "-v") || eq_str(a, "--volume")
        || eq_str(a, "-e") || eq_str(a, "--env") || eq_str(a, "-l") || eq_str(a, "--label")
        || eq_str(a, "-m") || eq_str(a, "--memory") || eq_str(a, "--cpus") || eq_str(
        a,
        "--env-file",
    ) || eq_str(a, "--device") || eq_str(a, "--sysctl") || eq_str(a, "--dns")
}

/// `skipped_pair_flag` in executable form.
fn is_skipped_pair_flag(a: &[char]) -> (r: bool)
    ensures
        r == skipped_pair_flag(a@),
{
    eq_str(a, "--cap-add") || eq_str(a, "--cap-drop") || eq_str(a, "--security-opt") || eq_str(
        a,
        "--shm-size",
    ) || eq_str(a, "--tmpfs")
}

/// `other_flag` in executable form.
fn is_other_flag(a: &[char]) -> (r: bool)
    ensures
        r == other_flag(a@),
{
    a.len() >= 2 && a[0] == '-'
}

/// `flag_with_value` in executable form.
fn is_flag_with_value(a: &[char]) -> (r: bool)
    ensures
        r == flag_with_value(a@),
{
    starts_with_str(a, "--") || (a.len() == 2 && a[0] == '-' && (a[1] as u32) < 128)
}

/// `missing_value_error` in executable form.
fn missing_value_message(a: &[char]) -> (r: String)
    ensures
        r@ == missing_value_error(a@),
{
    if eq_str(a, "--workdir") || eq_str(a, "-w") {
        owned("--workdir requires a value")
    } else if eq_str(a, "-p") || eq_str(a, "--publish") {
        owned("-p requires a value")
    } else if eq_str(a, "-v") || eq_str(a, "--volume") {
        owned("-v requires a value")
    } else if eq_str(a, "-e") || eq_str(a, "--env") {
        owned("-e requires a value")
    } else if eq_str(a, "-l") || eq_str(a, "--label") {
        owned("--label requires a value")
    } else if eq_str(a, "-m") || eq_str(a, "--memory") {
        owned("--memory requires a value")
    } else {
        let mut m: Vec<char> = Vec::new();
        push_chars(&mut m, a);
        push_str(&mut m, " requires a value");
        proof {
            assert(m@ =~= a@ + " requires a value"@);
        }
        string_of(m.as_slice())
    }
}

/// `split_once(v, '=')` as a pair of owned strings.
fn split_assignment(v: &String) -> (r: Option<(String, String)>)
    ensures
        r matches Some(p) ==> split_once(v@, '=') == Some((p.0@, p.1@)),
        r is None ==> split_once(v@, '=') is None,
{
    let vc = chars_of(v.as_str());
    match split_once_char(vc.as_slice(), '=') {
        Some((k, x)) => Some((string_of(k.as_slice()), string_of(x.as_slice()))),
        None => None,
    }
}

/// Applies the value flag `a` with value `v` (memory excluded).
fn apply_option_exec(svc: &mut ComposeService, a: &[char], v: &String)
    requires
        option_flag(a@),
        !(a@ == "-m"@ || a@ == "--memory"@),
    ensures
        final(svc)@ == apply_option(old(svc)@, a@, v@),
{
    let vv = v.clone();
    if eq_str(a, "--name") {
        svc.container_name = Some(vv);
    } else if eq_str(a, "--hostname") {
        svc.hostname = Some(vv);
    } else if eq_str(a, "--restart") {
        svc.restart = Some(vv);
    } else if eq_str(a, "--network") {
        push_string(&mut svc.networks, vv);
    } else if eq_str(a, "--entrypoint") {
        svc.entrypoint = Some(vv);
    } else if eq_str(a, "--user") {
        svc.user = Some(vv);
    } else if eq_str(a, "--workdir") || eq_str(a, "-w") {
        svc.working_dir = Some(vv);
    } else if eq_str(a, "-p") || eq_str(a, "--publish") {
        push_string(&mut svc.ports, vv);
    } else if eq_str(a, "-v") || eq_str(a, "--volume") {
        push_string(&mut svc.volumes, vv);
    } else if eq_str(a, "-e") || eq_str(a, "--env") {
        match split_assignment(v) {
            Some((k, x)) => insert_pair(&mut svc.environment, k, x),
            None => push_string(&mut svc.environment_keys, vv),
        }
    } else if eq_str(a, "-l") || eq_str(a, "--label") {
        match split_assignment(v) {
            Some((k, x)) => insert_pair(&mut svc.labels, k, x),
            None => {},
        }
    } else if eq_str(a, "--cpus") {
        svc.cpus = Some(vv);
    } else if eq_str(a, "--env-file") {
        svc.env_file = Some(vv);
    } else if eq_str(a, "--device") {
        push_string(&mut svc.devices, vv);
    } else if eq_str(a, "--sysctl") {
        match split_assignment(v) {
            Some((k, x)) => insert_pair(&mut svc.sysctls, k, x),
            None => {},
        }
    } else {
        push_string(&mut svc.dns, vv);
    }
}

/// Reads the words after `run` into `svc`.
fn read_run_args(args: &Vec<String>, svc: &mut ComposeService) -> (r: Result<(), String>)
    ensures
        match r {
            Ok(()) => run_args(strings_view(args@), 0, old(svc)@) == Ok::<
                ServiceView,
                Seq<char>,
            >(final(svc)@),
            Err(e) => run_args(strings_view(args@), 0, old(svc)@) == Err::<
                ServiceView,
                Seq<char>,
            >(e@),
        },
{
    let ghost sv = strings_view(args@);
    let n = args.len();
    let mut i: usize = 0;
    while i < n
        invariant
            n == args@.len(),
            sv == strings_view(args@),
            sv.len() == n,
            i <= n,
            run_args(sv, 0, old(svc)@) == run_args(sv, i as nat, svc@),
        decreases n - i,
    {
        let a = chars_of(args[i].as_str());
        let ghost sv_i = svc@;
        let ghost i0 = i as nat;
        proof {
            assert(sv[i as int] == args@[i as int]@);
            assert(a@ == sv[i as int]);
        }
        if eq_str(a.as_slice(), "-d") || eq_str(a.as_slice(), "--detach") {
            i = i + 1;
            assert(run_args(sv, i0, sv_i) == run_args(sv, i as nat, svc@));
        } else if eq_str(a.as_slice(), "-m") || eq_str(a.as_slice(), "--memory") {
            if i + 1 < n {
                proof {
                    assert(sv[i + 1] == args@[i + 1]@);
                }
                match parse_memory_mb(args[i + 1].as_str()) {
                    Ok(mb) => {
                        let mut m = decimal_chars(mb);
                        push_str(&mut m, "m");
                        svc.memory = Some(string_of(m.as_slice()));
                        proof {
                            assert(svc@ == ServiceView {
                                memory: Some(decimal(mb as nat) + "m"@),
                                ..sv_i
                            });
                        }
                        i = i + 2;
                        assert(run_args(sv, i0, sv_i) == run_args(sv, i as nat, svc@));
                    },
                    Err(e) => {
                        return Err(e);
                    },
                }
            } else {
                return Err(missing_value_message(a.as_slice()));
            }
        } else if is_option_flag(a.as_slice()) {
            if i + 1 < n {
                proof {
                    assert(sv[i + 1] == args@[i + 1]@);
                }
                apply_option_exec(svc, a.as_slice(), &args[i + 1]);
                i = i + 2;
                assert(run_args(sv, i0, sv_i) == run_args(sv, i as nat, svc@));
            } else {
                return Err(missing_value_message(a.as_slice()));
            }
        } else if eq_str(a.as_slice(), "--privileged") {
            svc.privileged = true;
            proof {
                assert(svc@ == ServiceView { privileged: true, ..sv_i });
            }
            i = i + 1;
            assert(run_args(sv, i0, sv_i) == run_args(sv, i as nat, svc@));
        } else if is_skipped_pair_flag(a.as_slice()) {
            i = i + 1;
            if i < n {
                i = i + 1;
            }
            proof {
                assert(run_args(sv, i0, sv_i) == run_args(sv, i0 + 2, sv_i));
                if i0 + 2 > n {
                    assert(run_args(sv, i0 + 2, sv_i) == Err::<ServiceView, Seq<char>>(
                        "No Docker image specified"@,
                    ));
                    assert(run_args(sv, i as nat, svc@) == Err::<ServiceView, Seq<char>>(
                        "No Docker image specified"@,
                    ));
                }
            }
        } else if is_other_flag(a.as_slice()) {
            if is_flag_with_value(a.as_slice()) && i + 1 < n {
                let nc = chars_of(args[i + 1].as_str());
                proof {
                    assert(sv[i + 1] == args@[i + 1]@);
                }
                if !starts_with_str(nc.as_slice(), "-") {
                    i = i + 2;
                } else {
                    i = i + 1;
                }
            } else {
                i = i + 1;
            }
            assert(run_args(sv, i0, sv_i) == run_args(sv, i as nat, svc@));
        } else {
            svc.image = args[i].clone();
            svc.command = tail_strings(args, i + 1);
            proof {
                assert(svc@ == ServiceView { image: sv[i as int], command: sv.skip(i + 1), ..sv_i });
            }
            return Ok(());
        }
    }
    Err(owned("No Docker image specified"))
}

/// The compose document for the shell words of a `docker run` command line,
/// or the reason the words are not one.
pub fn compose_from_words(args: &Vec<String>, service_name: &str) -> (r: Result<String, String>)
    ensures
        result_view(r) == compose_for_words(strings_view(args@), service_name@),
{
    let ghost sv = strings_view(args@);
    if args.len() == 0 {
        return Err(owned("Empty command"));
    }
    let mut p: usize = 0;
    while p < args.len()
        invariant
            p <= args@.len(),
            sv == strings_view(args@),
            forall|j: int| 0 <= j < p ==> sv[j] != "run"@,
        ensures
            p < args@.len() ==> sv[p as int] == "run"@,
            forall|j: int| 0 <= j < p ==> sv[j] != "run"@,
            p <= args@.len(),
        decreases args@.len() - p,
    {
        let a = chars_of(args[p].as_str());
        proof {
            assert(sv[p as int] == args@[p as int]@);
        }
        if eq_str(a.as_slice(), "run") {
            break;
        }
        p = p + 1;
    }
    if p == args.len() {
        proof {
            assert(!sv.contains("run"@));
        }
        return Err(owned("Not a docker run command (missing 'run')"));
    }
    proof {
        assert(is_first(sv, "run"@, p as int));
        lemma_first_unique(sv, "run"@, p as int);
    }
    let rest = tail_strings(args, p + 1);
    if rest.len() == 0 {
        return Err(owned("No arguments after 'run'"));
    }
    let mut svc = ComposeService::new(service_name);
    match read_run_args(&rest, &mut svc) {
        Ok(()) => Ok(svc.to_yaml()),
        Err(e) => Err(e),
    }
}

/// Parses a `docker run ...` command line and produces the compose
/// document of the service it describes.
pub fn docker_run_to_compose(cmd: &str, service_name: &str) -> (r: Result<String, String>)
    ensures
        match shlex_words(cmd@) {
            Some(words) => result_view(r) == compose_for_words(words, service_name@),
            None => result_view(r) == Err::<Seq<char>, Seq<char>>("Failed to parse command line"@),
        },
{
    match shell_words(cmd) {
        Some(args) => compose_from_words(&args, service_name),
        None => Err(owned("Failed to parse command line")),
    }
}

// ───── Laws of the command line ─────

/// The lengths and leading characters of the flags of `docker run`, enough
/// to tell them apart and from an image.
proof fn lemma_flag_literals()
    ensures
        "-d"@.len() == 2 && "-d"@[0] == '-' && "-d"@[1] == 'd',
        "--detach"@.len() == 8 && "--detach"@[0] == '-' && "--detach"@[1] == '-' && "--detach"@[2] == 'd' && "--detach"@[4] == 't',
        "-m"@.len() == 2 && "-m"@[0] == '-' && "-m"@[1] == 'm',
        "--memory"@.len() == 8 && "--memory"@[0] == '-' && "--memory"@[1] == '-' && "--memory"@[2] == 'm' && "--memory"@[4] == 'm',
        "--name"@.len() == 6 && "--name"@[0] == '-' && "--name"@[1] == '-' && "--name"@[2] == 'n' && "--name"@[4] == 'm',
        "--hostname"@.len() == 10 && "--hostname"@[0] == '-' && "--hostname"@[1] == '-' && "--hostname"@[2] == 'h' && "--hostname"@[4] == 's',
        "--restart"@.len() == 9 && "--restart"@[0] == '-' && "--restart"@[1] == '-' && "--restart"@[2] == 'r' && "--restart"@[4] == 's',
        "--network"@.len() == 9 && "--network"@[0] == '-' && "--network"@[1] == '-' && "--network"@[2] == 'n' && "--network"@[4] == 't',
        "--entrypoint"@.len() == 12 && "--entrypoint"@[0] == '-' && "--entrypoint"@[1] == '-' && "--entrypoint"@[2] == 'e' && "--entrypoint"@[4] == 't',
        "--user"@.len() == 6 && "--user"@[0] == '-' && "--user"@[1] == '-' && "--user"@[2] == 'u' && "--user"@[4] == 'e',
        "--workdir"@.len() == 9 && "--workdir"@[0] == '-' && "--workdir"@[1] == '-' && "--workdir"@[2] == 'w' && "--workdir"@[4] == 'r',
        "-w"@.len() == 2 && "-w"@[0] == '-' && "-w"@[1] == 'w',
        "-p"@.len() == 2 && "-p"@[0] == '-' && "-p"@[1] == 'p',
        "--publish"@.len() == 9 && "--publish"@[0] == '-' && "--publish"@[1] == '-' && "--publish"@[2] == 'p' && "--publish"@[4] == 'b',
        "-v"@.len() == 2 && "-v"@[0] == '-' && "-v"@[1] == 'v',
        "--volume"@.len() == 8 && "--volume"@[0] == '-' && "--volume"@[1] == '-' && "--volume"@[2] == 'v' && "--volume"@[4] == 'l',
        "-e"@.len() == 2 && "-e"@[0] == '-' && "-e"@[1] == 'e',
        "--env"@.len() == 5 && "--env"@[0] == '-' && "--env"@[1] == '-' && "--env"@[2] == 'e' && "--env"@[4] == 'v',
        "-l"@.len() == 2 && "-l"@[0] == '-' && "-l"@[1] == 'l',
        "--label"@.len() == 7 && "--label"@[0] == '-' && "--label"@[1] == '-' && "--label"@[2] == 'l' && "--label"@[4] == 'b',
        "--cpus"@.len() == 6 && "--cpus"@[0] == '-' && "--cpus"@[1] == '-' && "--cpus"@[2] == 'c' && "--cpus"@[4] == 'u',
        "--env-file"@.len() == 10 && "--env-file"@[0] == '-' && "--env-file"@[1] == '-' && "--env-file"@[2] == 'e' && "--env-file"@[4] == 'v',
        "--device"@.len() == 8 && "--device"@[0] == '-' && "--device"@[1] == '-' && "--device"@[2] == 'd' && "--device"@[4] == 'v',
        "--sysctl"@.len() == 8 && "--sysctl"@[0] == '-' && "--sysctl"@[1] == '-' && "--sysctl"@[2] == 's' && "--sysctl"@[4] == 's',
        "--dns"@.len() == 5 && "--dns"@[0] == '-' && "--dns"@[1] == '-' && "--dns"@[2] == 'd' && "--dns"@[4] == 's',
        "--privileged"@.len() == 12 && "--privileged"@[0] == '-' && "--privileged"@[1] == '-' && "--privileged"@[2] == 'p' && "--privileged"@[4] == 'i',
        "--cap-add"@.len() == 9 && "--cap-add"@[0] == '-' && "--cap-add"@[1] == '-' && "--cap-add"@[2] == 'c' && "--cap-add"@[4] == 'p',
        "--cap-drop"@.len() == 10 && "--cap-drop"@[0] == '-' && "--cap-drop"@[1] == '-' && "--cap-drop"@[2] == 'c' && "--cap-drop"@[4] == 'p',
        "--security-opt"@.len() == 14 && "--security-opt"@[0] == '-' && "--security-opt"@[1] == '-' && "--security-opt"@[2] == 's' && "--security-opt"@[4] == 'c',
        "--shm-size"@.len() == 10 && "--shm-size"@[0] == '-' && "--shm-size"@[1] == '-' && "--shm-size"@[2] == 's' && "--shm-size"@[4] == 'm',
        "--tmpfs"@.len() == 7 && "--tmpfs"@[0] == '-' && "--tmpfs"@[1] == '-' && "--tmpfs"@[2] == 't' && "--tmpfs"@[4] == 'p',
{
    reveal_strlit("-d");
    assert("-d"@.len() == 2 && "-d"@[0] == '-' && "-d"@[1] == 'd');
    reveal_strlit("--detach");
    assert("--detach"@.len() == 8 && "--detach"@[0] == '-' && "--detach"@[1] == '-' && "--detach"@[2] == 'd' && "--detach"@[4] == 't');
    reveal_strlit("-m");
    assert("-m"@.len() == 2 && "-m"@[0] == '-' && "-m"@[1] == 'm');
    reveal_strlit("--memory");
    assert("--memory"@.len() == 8 && "--memory"@[0] == '-' && "--memory"@[1] == '-' && "--memory"@[2] == 'm' && "--memory"@[4] == 'm');
    reveal_strlit("--name");
    assert("--name"@.len() == 6 && "--name"@[0] == '-' && "--name"@[1] == '-' && "--name"@[2] == 'n' && "--name"@[4] == 'm');
    reveal_strlit("--hostname");
    assert("--hostname"@.len() == 10 && "--hostname"@[0] == '-' && "--hostname"@[1] == '-' && "--hostname"@[2] == 'h' && "--hostname"@[4] == 's');
    reveal_strlit("--restart");
    assert("--restart"@.len() == 9 && "--restart"@[0] == '-' && "--restart"@[1] == '-' && "--restart"@[2] == 'r' && "--restart"@[4] == 's');
    reveal_strlit("--network");
    assert("--network"@.len() == 9 && "--network"@[0] == '-' && "--network"@[1] == '-' && "--network"@[2] == 'n' && "--network"@[4] == 't');
    reveal_strlit("--entrypoint");
    assert("--entrypoint"@.len() == 12 && "--entrypoint"@[0] == '-' && "--entrypoint"@[1] == '-' && "--entrypoint"@[2] == 'e' && "--entrypoint"@[4] == 't');
    reveal_strlit("--user");
    assert("--user"@.len() == 6 && "--user"@[0] == '-' && "--user"@[1] == '-' && "--user"@[2] == 'u' && "--user"@[4] == 'e');
    reveal_strlit("--workdir");
    assert("--workdir"@.len() == 9 && "--workdir"@[0] == '-' && "--workdir"@[1] == '-' && "--workdir"@[2] == 'w' && "--workdir"@[4] == 'r');
    reveal_strlit("-w");
    assert("-w"@.len() == 2 && "-w"@[0] == '-' && "-w"@[1] == 'w');
    reveal_strlit("-p");
    assert("-p"@.len() == 2 && "-p"@[0] == '-' && "-p"@[1] == 'p');
    reveal_strlit("--publish");
    assert("--publish"@.len() == 9 && "--publish"@[0] == '-' && "--publish"@[1] == '-' && "--publish"@[2] == 'p' && "--publish"@[4] == 'b');
    reveal_strlit("-v");
    assert("-v"@.len() == 2 && "-v"@[0] == '-' && "-v"@[1] == 'v');
    reveal_strlit("--volume");
    assert("--volume"@.len() == 8 && "--volume"@[0] == '-' && "--volume"@[1] == '-' && "--volume"@[2] == 'v' && "--volume"@[4] == 'l');
    reveal_strlit("-e");
    assert("-e"@.len() == 2 && "-e"@[0] == '-' && "-e"@[1] == 'e');
    reveal_strlit("--env");
    assert("--env"@.len() == 5 && "--env"@[0] == '-' && "--env"@[1] == '-' && "--env"@[2] == 'e' && "--env"@[4] == 'v');
    reveal_strlit("-l");
    assert("-l"@.len() == 2 && "-l"@[0] == '-' && "-l"@[1] == 'l');
    reveal_strlit("--label");
    assert("--label"@.len() == 7 && "--label"@[0] == '-' && "--label"@[1] == '-' && "--label"@[2] == 'l' && "--label"@[4] == 'b');
    reveal_strlit("--cpus");
    assert("--cpus"@.len() == 6 && "--cpus"@[0] == '-' && "--cpus"@[1] == '-' && "--cpus"@[2] == 'c' && "--cpus"@[4] == 'u');
    reveal_strlit("--env-file");
    assert("--env-file"@.len() == 10 && "--env-file"@[0] == '-' && "--env-file"@[1] == '-' && "--env-file"@[2] == 'e' && "--env-file"@[4] == 'v');
    reveal_strlit("--device");
    assert("--device"@.len() == 8 && "--device"@[0] == '-' && "--device"@[1] == '-' && "--device"@[2] == 'd' && "--device"@[4] == 'v');
    reveal_strlit("--sysctl");
    assert("--sysctl"@.len() == 8 && "--sysctl"@[0] == '-' && "--sysctl"@[1] == '-' && "--sysctl"@[2] == 's' && "--sysctl"@[4] == 's');
    reveal_strlit("--dns");
    assert("--dns"@.len() == 5 && "--dns"@[0] == '-' && "--dns"@[1] == '-' && "--dns"@[2] == 'd' && "--dns"@[4] == 's');
    reveal_strlit("--privileged");
    assert("--privileged"@.len() == 12 && "--privileged"@[0] == '-' && "--privileged"@[1] == '-' && "--privileged"@[2] == 'p' && "--privileged"@[4] == 'i');
    reveal_strlit("--cap-add");
    assert("--cap-add"@.len() == 9 && "--cap-add"@[0] == '-' && "--cap-add"@[1] == '-' && "--cap-add"@[2] == 'c' && "--cap-add"@[4] == 'p');
    reveal_strlit("--cap-drop");
    assert("--cap-drop"@.len() == 10 && "--cap-drop"@[0] == '-' && "--cap-drop"@[1] == '-' && "--cap-drop"@[2] == 'c' && "--cap-drop"@[4] == 'p');
    reveal_strlit("--security-opt");
    assert("--security-opt"@.len() == 14 && "--security-opt"@[0] == '-' && "--security-opt"@[1] == '-' && "--security-opt"@[2] == 's' && "--security-opt"@[4] == 'c');
    reveal_strlit("--shm-size");
    assert("--shm-size"@.len() == 10 && "--shm-size"@[0] == '-' && "--shm-size"@[1] == '-' && "--shm-size"@[2] == 's' && "--shm-size"@[4] == 'm');
    reveal_strlit("--tmpfs");
    assert("--tmpfs"@.len() == 7 && "--tmpfs"@[0] == '-' && "--tmpfs"@[1] == '-' && "--tmpfs"@[2] == 't' && "--tmpfs"@[4] == 'p');
}

/// A word that can stand for the image: it does not start with `-`.
pub open spec fn image_word(w: Seq<char>) -> bool {
    w.len() == 0 || w[0] != '-'
}

/// A word that does not start with `-` is the image: it ends the flags,
/// and the words after it are the command.
proof fn lemma_image_ends_flags(args: Seq<Seq<char>>, i: nat, svc: ServiceView)
    requires
        i < args.len(),
        image_word(args[i as int]),
    ensures
        run_args(args, i, svc) == Ok::<ServiceView, Seq<char>>(
            ServiceView { image: args[i as int], command: args.skip(i + 1 as int), ..svc },
        ),
{
    lemma_flag_literals();
    let w = args[i as int];
    if w.len() > 0 {
        assert(w[0] != '-');
    }
}

/// A value flag followed by its value and the image: the flag sets its
/// field and the image comes next.
proof fn lemma_flag_then_image(f: Seq<char>, v: Seq<char>, img: Seq<char>, svc: ServiceView)
    requires
        option_flag(f),
        f != "-m"@,
        f != "--memory"@,
        image_word(img),
    ensures
        run_args(seq![f, v, img], 0, svc) == Ok::<ServiceView, Seq<char>>(
            ServiceView { image: img, command: Seq::empty(), ..apply_option(svc, f, v) },
        ),
{
    let args = seq![f, v, img];
    lemma_flag_literals();
    lemma_image_ends_flags(args, 2, apply_option(svc, f, v));
    assert(args.skip(3) =~= Seq::<Seq<char>>::empty());
    assert(f != "-d"@ && f != "--detach"@);
}

/// Every value flag of `docker run` followed by its value and the image
/// lands in its own field of the service, and only there: `--name`,
/// `--hostname`, `--restart`, `--entrypoint`, `--user`, `--workdir`/`-w`,
/// `--cpus` and `--env-file` set their value; `--network`, `-p`/`--publish`,
/// `-v`/`--volume`, `--device` and `--dns` append it to their list; the
/// word after the value is the image and nothing follows as command.
pub proof fn law_value_flags_set_their_field(v: Seq<char>, img: Seq<char>, svc: ServiceView)
    requires
        image_word(img),
    ensures
        run_args(seq!["--name"@, v, img], 0, svc) == Ok::<ServiceView, Seq<char>>(
            ServiceView { container_name: Some(v), image: img, command: Seq::empty(), ..svc },
        ),
        run_args(seq!["--hostname"@, v, img], 0, svc) == Ok::<ServiceView, Seq<char>>(
            ServiceView { hostname: Some(v), image: img, command: Seq::empty(), ..svc },
        ),
        run_args(seq!["--restart"@, v, img], 0, svc) == Ok::<ServiceView, Seq<char>>(
            ServiceView { restart: Some(v), image: img, command: Seq::empty(), ..svc },
        ),
        run_args(seq!["--entrypoint"@, v, img], 0, svc) == Ok::<ServiceView, Seq<char>>(
            ServiceView { entrypoint: Some(v), image: img, command: Seq::empty(), ..svc },
        ),
        run_args(seq!["--user"@, v, img], 0, svc) == Ok::<ServiceView, Seq<char>>(
            ServiceView { user: Some(v), image: img, command: Seq::empty(), ..svc },
        ),
        run_args(seq!["--workdir"@, v, img], 0, svc) == Ok::<ServiceView, Seq<char>>(
            ServiceView { working_dir: Some(v), image: img, command: Seq::empty(), ..svc },
        ),
        run_args(seq!["-w"@, v, img], 0, svc) == Ok::<ServiceView, Seq<char>>(
            ServiceView { working_dir: Some(v), image: img, command: Seq::empty(), ..svc },
        ),
        run_args(seq!["--cpus"@, v, img], 0, svc) == Ok::<ServiceView, Seq<char>>(
            ServiceView { cpus: Some(v), image: img, command: Seq::empty(), ..svc },
        ),
        run_args(seq!["--env-file"@, v, img], 0, svc) == Ok::<ServiceView, Seq<char>>(
            ServiceView { env_file: Some(v), image: img, command: Seq::empty(), ..svc },
        ),
        run_args(seq!["--network"@, v, img], 0, svc) == Ok::<ServiceView, Seq<char>>(
            ServiceView { networks: svc.networks.push(v), image: img, command: Seq::empty(), ..svc },
        ),
        run_args(seq!["-p"@, v, img], 0, svc) == Ok::<ServiceView, Seq<char>>(
            ServiceView { ports: svc.ports.push(v), image: img, command: Seq::empty(), ..svc },
        ),
        run_args(seq!["--publish"@, v, img], 0, svc) == Ok::<ServiceView, Seq<char>>(
            ServiceView { ports: svc.ports.push(v), image: img, command: Seq::empty(), ..svc },
        ),
        run_args(seq!["-v"@, v, img], 0, svc) == Ok::<ServiceView, Seq<char>>(
            ServiceView { volumes: svc.volumes.push(v), image: img, command: Seq::empty(), ..svc },
        ),
        run_args(seq!["--volume"@, v, img], 0, svc) == Ok::<ServiceView, Seq<char>>(
            ServiceView { volumes: svc.volumes.push(v), image: img, command: Seq::empty(), ..svc },
        ),
        run_args(seq!["--device"@, v, img], 0, svc) == Ok::<ServiceView, Seq<char>>(
            ServiceView { devices: svc.devices.push(v), image: img, command: Seq::empty(), ..svc },
        ),
        run_args(seq!["--dns"@, v, img], 0, svc) == Ok::<ServiceView, Seq<char>>(
            ServiceView { dns: svc.dns.push(v), image: img, command: Seq::empty(), ..svc },
        ),
{
    lemma_flag_literals();
    lemma_flag_then_image("--name"@, v, img, svc);
    lemma_flag_then_image("--hostname"@, v, img, svc);
    lemma_flag_then_image("--restart"@, v, img, svc);
    lemma_flag_then_image("--entrypoint"@, v, img, svc);
    lemma_flag_then_image("--user"@, v, img, svc);
    lemma_flag_then_image("--workdir"@, v, img, svc);
    lemma_flag_then_image("-w"@, v, img, svc);
    lemma_flag_then_image("--cpus"@, v, img, svc);
    lemma_flag_then_image("--env-file"@, v, img, svc);
    lemma_flag_then_image("--network"@, v, img, svc);
    lemma_flag_then_image("-p"@, v, img, svc);
    lemma_flag_then_image("--publish"@, v, img, svc);
    lemma_flag_then_image("-v"@, v, img, svc);
    lemma_flag_then_image("--volume"@, v, img, svc);
    lemma_flag_then_image("--device"@, v, img, svc);
    lemma_flag_then_image("--dns"@, v, img, svc);
}

/// The other flags that shape the service: `-e`/`--env` sets a variable (or
/// lists a bare name), `-l`/`--label` and `--sysctl` set a key to a value,
/// `-m`/`--memory` sets the memory limit in megabytes or fails with the
/// size's error, `--privileged` makes the service privileged, and
/// `-d`/`--detach` changes nothing; the next word is the image.
pub proof fn law_other_flags_shape_the_service(v: Seq<char>, img: Seq<char>, svc: ServiceView)
    requires
        image_word(img),
    ensures
        run_args(seq!["-e"@, v, img], 0, svc) == run_args(seq!["--env"@, v, img], 0, svc),
        run_args(seq!["-e"@, v, img], 0, svc) == Ok::<ServiceView, Seq<char>>(
            match split_once(v, '=') {
                Some((k, x)) => ServiceView {
                    environment: map_insert(svc.environment, k, x),
                    image: img,
                    command: Seq::empty(),
                    ..svc
                },
                None => ServiceView {
                    environment_keys: svc.environment_keys.push(v),
                    image: img,
                    command: Seq::empty(),
                    ..svc
                },
            },
        ),
        run_args(seq!["-l"@, v, img], 0, svc) == run_args(seq!["--label"@, v, img], 0, svc),
        run_args(seq!["-l"@, v, img], 0, svc) == Ok::<ServiceView, Seq<char>>(
            match split_once(v, '=') {
                Some((k, x)) => ServiceView {
                    labels: map_insert(svc.labels, k, x),
                    image: img,
                    command: Seq::empty(),
                    ..svc
                },
                None => ServiceView { image: img, command: Seq::empty(), ..svc },
            },
        ),
        run_args(seq!["--sysctl"@, v, img], 0, svc) == Ok::<ServiceView, Seq<char>>(
            match split_once(v, '=') {
                Some((k, x)) => ServiceView {
                    sysctls: map_insert(svc.sysctls, k, x),
                    image: img,
                    command: Seq::empty(),
                    ..svc
                },
                None => ServiceView { image: img, command: Seq::empty(), ..svc },
            },
        ),
        run_args(seq!["-m"@, v, img], 0, svc) == run_args(seq!["--memory"@, v, img], 0, svc),
        run_args(seq!["-m"@, v, img], 0, svc) == match memory_mb(v) {
            Ok(n) => Ok::<ServiceView, Seq<char>>(
                ServiceView {
                    memory: Some(decimal(n) + "m"@),
                    image: img,
                    command: Seq::empty(),
                    ..svc
                },
            ),
            Err(e) => Err::<ServiceView, Seq<char>>(e),
        },
        run_args(seq!["--privileged"@, img], 0, svc) == Ok::<ServiceView, Seq<char>>(
            ServiceView { privileged: true, image: img, command: Seq::empty(), ..svc },
        ),
        run_args(seq!["-d"@, img], 0, svc) == Ok::<ServiceView, Seq<char>>(
            ServiceView { image: img, command: Seq::empty(), ..svc },
        ),
        run_args(seq!["--detach"@, img], 0, svc) == Ok::<ServiceView, Seq<char>>(
            ServiceView { image: img, command: Seq::empty(), ..svc },
        ),
{
    lemma_flag_literals();
    lemma_flag_then_image("-e"@, v, img, svc);
    lemma_flag_then_image("--env"@, v, img, svc);
    lemma_flag_then_image("-l"@, v, img, svc);
    lemma_flag_then_image("--label"@, v, img, svc);
    lemma_flag_then_image("--sysctl"@, v, img, svc);
    let m1 = seq!["-m"@, v, img];
    let m2 = seq!["--memory"@, v, img];
    assert(m1.skip(3) =~= Seq::<Seq<char>>::empty());
    assert(m2.skip(3) =~= Seq::<Seq<char>>::empty());
    match memory_mb(v) {
        Ok(n) => {
            let s2 = ServiceView { memory: Some(decimal(n) + "m"@), ..svc };
            lemma_image_ends_flags(m1, 2, s2);
            lemma_image_ends_flags(m2, 2, s2);
        },
        Err(_) => {},
    }
    let pr = seq!["--privileged"@, img];
    assert(pr.skip(2) =~= Seq::<Seq<char>>::empty());
    lemma_image_ends_flags(pr, 1, ServiceView { privileged: true, ..svc });
    let d1 = seq!["-d"@, img];
    let d2 = seq!["--detach"@, img];
    assert(d1.skip(2) =~= Seq::<Seq<char>>::empty());
    assert(d2.skip(2) =~= Seq::<Seq<char>>::empty());
    lemma_image_ends_flags(d1, 1, svc);
    lemma_image_ends_flags(d2, 1, svc);
}

// ───── Laws of the document ─────

/// A middle part occurs in the whole.
proof fn lemma_contains_mid(a: Seq<char>, b: Seq<char>, c: Seq<char>)
    ensures
        contains_seq(a + b + c, b),
{
    assert((a + b + c).subrange(a.len() as int, (a.len() + b.len()) as int) =~= b);
    assert(occurs_at(a + b + c, b, a.len() as int));
}

/// What occurs in a part occurs in the whole.
proof fn lemma_contains_trans(a: Seq<char>, b: Seq<char>, c: Seq<char>)
    requires
        contains_seq(a, b),
        contains_seq(b, c),
    ensures
        contains_seq(a, c),
{
    let i = choose|i: int| occurs_at(a, b, i);
    let j = choose|j: int| occurs_at(b, c, j);
    assert(a.subrange(i + j, i + j + c.len()) =~= b.subrange(j, j + c.len())) by {
        assert forall|k: int| 0 <= k < c.len() implies #[trigger] a.subrange(i + j, i + j + c.len())[k]
            == b.subrange(j, j + c.len())[k] by {
            assert(a.subrange(i, i + b.len())[j + k] == b[j + k]);
        }
    }
    assert(occurs_at(a, c, i + j));
}

/// Each item of a list has its own line.
proof fn lemma_item_line(items: Seq<Seq<char>>, i: int)
    requires
        0 <= i < items.len(),
    ensures
        contains_seq(item_lines(items), "      - "@ + items[i] + "\n"@),
    decreases items.len(),
{
    let init = items.drop_last();
    let line = "      - "@ + items.last() + "\n"@;
    assert(item_lines(items) =~= item_lines(init) + line);
    if i == items.len() - 1 {
        lemma_contains_mid(item_lines(init), line, Seq::empty());
        assert(item_lines(init) + line + Seq::<char>::empty() =~= item_lines(items));
    } else {
        assert(init[i] == items[i]);
        lemma_item_line(init, i);
        lemma_contains_mid(Seq::empty(), item_lines(init), line);
        assert(Seq::<char>::empty() + item_lines(init) + line =~= item_lines(items));
        lemma_contains_trans(item_lines(items), item_lines(init), "      - "@ + items[i] + "\n"@);
    }
}

/// A list section holds its header and one line per item.
proof fn lemma_list_section_lines(header: Seq<char>, items: Seq<Seq<char>>, i: int)
    requires
        0 <= i < items.len(),
    ensures
        contains_seq(list_section(header, items), header),
        contains_seq(list_section(header, items), "      - "@ + items[i] + "\n"@),
{
    lemma_contains_mid(Seq::empty(), header, item_lines(items));
    assert(Seq::<char>::empty() + header + item_lines(items) =~= list_section(header, items));
    lemma_item_line(items, i);
    lemma_contains_mid(header, item_lines(items), Seq::empty());
    assert(header + item_lines(items) + Seq::<char>::empty() =~= list_section(header, items));
    lemma_contains_trans(list_section(header, items), item_lines(items), "      - "@ + items[i] + "\n"@);
}

/// The first part of a concatenation occurs in it.
proof fn lemma_contains_left(a: Seq<char>, b: Seq<char>)
    ensures
        contains_seq(a + b, a),
{
    lemma_contains_mid(Seq::empty(), a, b);
    assert(Seq::<char>::empty() + a + b =~= a + b);
}

/// The last part of a concatenation occurs in it.
proof fn lemma_contains_right(a: Seq<char>, b: Seq<char>)
    ensures
        contains_seq(a + b, b),
{
    lemma_contains_mid(a, b, Seq::empty());
    assert(a + b + Seq::<char>::empty() =~= a + b);
}

/// Every scalar line of a service occurs among its scalar lines.
proof fn lemma_scalar_parts(svc: ServiceView)
    ensures
        contains_seq(scalar_lines(svc), opt_line("    container_name: "@, svc.container_name)),
        contains_seq(scalar_lines(svc), opt_line("    hostname: "@, svc.hostname)),
        contains_seq(scalar_lines(svc), opt_line("    restart: "@, svc.restart)),
        contains_seq(scalar_lines(svc), opt_line("    user: "@, svc.user)),
        contains_seq(scalar_lines(svc), opt_line("    working_dir: "@, svc.working_dir)),
        svc.privileged ==> contains_seq(scalar_lines(svc), "    privileged: true\n"@),
        contains_seq(scalar_lines(svc), opt_line("    mem_limit: "@, svc.memory)),
        contains_seq(scalar_lines(svc), opt_line("    cpus: "@, svc.cpus)),
        contains_seq(scalar_lines(svc), opt_line("    entrypoint: "@, svc.entrypoint)),
        contains_seq(scalar_lines(svc), opt_line("    env_file: "@, svc.env_file)),
{
    let l0 = opt_line("    container_name: "@, svc.container_name);
    let l1 = opt_line("    hostname: "@, svc.hostname);
    let l2 = opt_line("    restart: "@, svc.restart);
    let l3 = opt_line("    user: "@, svc.user);
    let l4 = opt_line("    working_dir: "@, svc.working_dir);
    let l5 = if svc.privileged {
        "    privileged: true\n"@
    } else {
        Seq::empty()
    };
    let l6 = opt_line("    mem_limit: "@, svc.memory);
    let l7 = opt_line("    cpus: "@, svc.cpus);
    let l8 = opt_line("    entrypoint: "@, svc.entrypoint);
    let l9 = opt_line("    env_file: "@, svc.env_file);
    let s1 = l0 + l1;
    let s2 = s1 + l2;
    let s3 = s2 + l3;
    let s4 = s3 + l4;
    let s5 = s4 + l5;
    let s6 = s5 + l6;
    let s7 = s6 + l7;
    let s8 = s7 + l8;
    let s9 = s8 + l9;
    assert(scalar_lines(svc) == s9);
    lemma_contains_right(s8, l9);
    lemma_contains_left(s8, l9);
    lemma_contains_right(s7, l8);
    lemma_contains_left(s7, l8);
    lemma_contains_trans(s9, s8, l8);
    lemma_contains_trans(s9, s8, s7);
    lemma_contains_right(s6, l7);
    lemma_contains_left(s6, l7);
    lemma_contains_trans(s9, s7, l7);
    lemma_contains_trans(s9, s7, s6);
    lemma_contains_right(s5, l6);
    lemma_contains_left(s5, l6);
    lemma_contains_trans(s9, s6, l6);
    lemma_contains_trans(s9, s6, s5);
    lemma_contains_right(s4, l5);
    lemma_contains_left(s4, l5);
    lemma_contains_trans(s9, s5, l5);
    lemma_contains_trans(s9, s5, s4);
    lemma_contains_right(s3, l4);
    lemma_contains_left(s3, l4);
    lemma_contains_trans(s9, s4, l4);
    lemma_contains_trans(s9, s4, s3);
    lemma_contains_right(s2, l3);
    lemma_contains_left(s2, l3);
    lemma_contains_trans(s9, s3, l3);
    lemma_contains_trans(s9, s3, s2);
    lemma_contains_right(s1, l2);
    lemma_contains_left(s1, l2);
    lemma_contains_trans(s9, s2, l2);
    lemma_contains_trans(s9, s2, s1);
    lemma_contains_right(l0, l1);
    lemma_contains_left(l0, l1);
    lemma_contains_trans(s9, s1, l1);
    lemma_contains_trans(s9, s1, l0);
}

/// Every list section of a service occurs among its sections.
proof fn lemma_section_parts(svc: ServiceView)
    ensures
        contains_seq(section_lines(svc), list_section("    ports:\n"@, svc.ports)),
        contains_seq(section_lines(svc), list_section("    volumes:\n"@, svc.volumes)),
        contains_seq(section_lines(svc), list_section("    devices:\n"@, svc.devices)),
        contains_seq(section_lines(svc), list_section("    dns:\n"@, svc.dns)),
        contains_seq(section_lines(svc), list_section("    networks:\n"@, svc.networks)),
        contains_seq(section_lines(svc), list_section("    command:\n"@, svc.command)),
{
    let l0 = list_section("    ports:\n"@, svc.ports);
    let l1 = list_section("    volumes:\n"@, svc.volumes);
    let l2 = list_section("    devices:\n"@, svc.devices);
    let l3 = list_section("    dns:\n"@, svc.dns);
    let l4 = env_section(svc.environment, svc.environment_keys);
    let l5 = pair_section("    labels:\n"@, svc.labels);
    let l6 = pair_section("    sysctls:\n"@, svc.sysctls);
    let l7 = list_section("    networks:\n"@, svc.networks);
    let l8 = list_section("    command:\n"@, svc.command);
    let s1 = l0 + l1;
    let s2 = s1 + l2;
    let s3 = s2 + l3;
    let s4 = s3 + l4;
    let s5 = s4 + l5;
    let s6 = s5 + l6;
    let s7 = s6 + l7;
    let s8 = s7 + l8;
    assert(section_lines(svc) == s8);
    lemma_contains_right(s7, l8);
    lemma_contains_left(s7, l8);
    lemma_contains_right(s6, l7);
    lemma_contains_left(s6, l7);
    lemma_contains_trans(s8, s7, l7);
    lemma_contains_trans(s8, s7, s6);
    lemma_contains_left(s5, l6);
    lemma_contains_trans(s8, s6, s5);
    lemma_contains_left(s4, l5);
    lemma_contains_trans(s8, s5, s4);
    lemma_contains_left(s3, l4);
    lemma_contains_trans(s8, s4, s3);
    lemma_contains_right(s2, l3);
    lemma_contains_left(s2, l3);
    lemma_contains_trans(s8, s3, l3);
    lemma_contains_trans(s8, s3, s2);
    lemma_contains_right(s1, l2);
    lemma_contains_left(s1, l2);
    lemma_contains_trans(s8, s2, l2);
    lemma_contains_trans(s8, s2, s1);
    lemma_contains_right(l0, l1);
    lemma_contains_left(l0, l1);
    lemma_contains_trans(s8, s1, l1);
    lemma_contains_trans(s8, s1, l0);
}

/// The document holds its image line, its scalar lines and its sections.
proof fn lemma_document_parts(svc: ServiceView)
    ensures
        contains_seq(yaml(svc), "    image: "@ + svc.image + "\n"@),
        contains_seq(yaml(svc), scalar_lines(svc)),
        contains_seq(yaml(svc), section_lines(svc)),
{
    let top = "services:\n  "@ + svc.service_name + ":\n"@;
    let img = "    image: "@ + svc.image + "\n"@;
    let head = top + "    image: "@ + svc.image + "\n"@;
    let sl = scalar_lines(svc);
    let sec = section_lines(svc);
    assert(head =~= top + img);
    assert(yaml(svc) == head + sl + sec);
    lemma_contains_right(head + sl, sec);
    lemma_contains_left(head + sl, sec);
    lemma_contains_right(head, sl);
    lemma_contains_left(head, sl);
    lemma_contains_trans(yaml(svc), head + sl, sl);
    lemma_contains_trans(yaml(svc), head + sl, head);
    lemma_contains_right(top, img);
    lemma_contains_trans(yaml(svc), head, img);
}

/// The compose document shows everything the service holds: its image, and
/// a line for every scalar field that is set (`container_name`, `hostname`,
/// `restart`, `user`, `working_dir`, `privileged`, `mem_limit`, `cpus`,
/// `entrypoint`, `env_file`).
pub proof fn law_document_shows_scalar_fields(svc: ServiceView)
    ensures
        contains_seq(yaml(svc), "    image: "@ + svc.image + "\n"@),
        svc.container_name matches Some(x) ==> contains_seq(
            yaml(svc),
            "    container_name: "@ + x + "\n"@,
        ),
        svc.hostname matches Some(x) ==> contains_seq(yaml(svc), "    hostname: "@ + x + "\n"@),
        svc.restart matches Some(x) ==> contains_seq(yaml(svc), "    restart: "@ + x + "\n"@),
        svc.user matches Some(x) ==> contains_seq(yaml(svc), "    user: "@ + x + "\n"@),
        svc.working_dir matches Some(x) ==> contains_seq(
            yaml(svc),
            "    working_dir: "@ + x + "\n"@,
        ),
        svc.privileged ==> contains_seq(yaml(svc), "    privileged: true\n"@),
        svc.memory matches Some(x) ==> contains_seq(yaml(svc), "    mem_limit: "@ + x + "\n"@),
        svc.cpus matches Some(x) ==> contains_seq(yaml(svc), "    cpus: "@ + x + "\n"@),
        svc.entrypoint matches Some(x) ==> contains_seq(yaml(svc), "    entrypoint: "@ + x + "\n"@),
        svc.env_file matches Some(x) ==> contains_seq(yaml(svc), "    env_file: "@ + x + "\n"@),
{
    let y = yaml(svc);
    let sl = scalar_lines(svc);
    lemma_document_parts(svc);
    lemma_scalar_parts(svc);
    lemma_contains_trans(y, sl, opt_line("    container_name: "@, svc.container_name));
    lemma_contains_trans(y, sl, opt_line("    hostname: "@, svc.hostname));
    lemma_contains_trans(y, sl, opt_line("    restart: "@, svc.restart));
    lemma_contains_trans(y, sl, opt_line("    user: "@, svc.user));
    lemma_contains_trans(y, sl, opt_line("    working_dir: "@, svc.working_dir));
    if svc.privileged {
        lemma_contains_trans(y, sl, "    privileged: true\n"@);
    }
    lemma_contains_trans(y, sl, opt_line("    mem_limit: "@, svc.memory));
    lemma_contains_trans(y, sl, opt_line("    cpus: "@, svc.cpus));
    lemma_contains_trans(y, sl, opt_line("    entrypoint: "@, svc.entrypoint));
    lemma_contains_trans(y, sl, opt_line("    env_file: "@, svc.env_file));
}

/// The compose document lists every published port, volume, device, DNS
/// server, network and command word, each on its own `- ` line under its
/// section's header.
pub proof fn law_document_lists_every_item(svc: ServiceView, i: int)
    ensures
        0 <= i < svc.ports.len() ==> contains_seq(yaml(svc), "    ports:\n"@) && contains_seq(
            yaml(svc),
            "      - "@ + svc.ports[i] + "\n"@,
        ),
        0 <= i < svc.volumes.len() ==> contains_seq(yaml(svc), "    volumes:\n"@) && contains_seq(
            yaml(svc),
            "      - "@ + svc.volumes[i] + "\n"@,
        ),
        0 <= i < svc.devices.len() ==> contains_seq(yaml(svc), "    devices:\n"@) && contains_seq(
            yaml(svc),
            "      - "@ + svc.devices[i] + "\n"@,
        ),
        0 <= i < svc.dns.len() ==> contains_seq(yaml(svc), "    dns:\n"@) && contains_seq(
            yaml(svc),
            "      - "@ + svc.dns[i] + "\n"@,
        ),
        0 <= i < svc.networks.len() ==> contains_seq(yaml(svc), "    networks:\n"@) && contains_seq(
            yaml(svc),
            "      - "@ + svc.networks[i] + "\n"@,
        ),
        0 <= i < svc.command.len() ==> contains_seq(yaml(svc), "    command:\n"@) && contains_seq(
            yaml(svc),
            "      - "@ + svc.command[i] + "\n"@,
        ),
{
    let y = yaml(svc);
    let sec = section_lines(svc);
    lemma_document_parts(svc);
    lemma_section_parts(svc);
    if 0 <= i < svc.ports.len() {
        lemma_list_item_in_document(y, sec, "    ports:\n"@, svc.ports, i);
    }
    if 0 <= i < svc.volumes.len() {
        lemma_list_item_in_document(y, sec, "    volumes:\n"@, svc.volumes, i);
    }
    if 0 <= i < svc.devices.len() {
        lemma_list_item_in_document(y, sec, "    devices:\n"@, svc.devices, i);
    }
    if 0 <= i < svc.dns.len() {
        lemma_list_item_in_document(y, sec, "    dns:\n"@, svc.dns, i);
    }
    if 0 <= i < svc.networks.len() {
        lemma_list_item_in_document(y, sec, "    networks:\n"@, svc.networks, i);
    }
    if 0 <= i < svc.command.len() {
        lemma_list_item_in_document(y, sec, "    command:\n"@, svc.command, i);
    }
}

/// A list section inside the sections of a document puts its header and
/// its items into the document.
proof fn lemma_list_item_in_document(
    y: Seq<char>,
    sec: Seq<char>,
    header: Seq<char>,
    items: Seq<Seq<char>>,
    i: int,
)
    requires
        0 <= i < items.len(),
        contains_seq(y, sec),
        contains_seq(sec, list_section(header, items)),
    ensures
        contains_seq(y, header),
        contains_seq(y, "      - "@ + items[i] + "\n"@),
{
    let ls = list_section(header, items);
    lemma_list_section_lines(header, items, i);
    lemma_contains_trans(y, sec, ls);
    lemma_contains_trans(y, ls, header);
    lemma_contains_trans(y, ls, "      - "@ + items[i] + "\n"@);
}

/// The line of the compose document that a single-valued flag of
/// `docker run` fills, up to its value.
pub open spec fn document_key(flag: Seq<char>) -> Seq<char> {
    if flag == "--name"@ {
        "    container_name: "@
    } else if flag == "--hostname"@ {
        "    hostname: "@
    } else if flag == "--restart"@ {
        "    restart: "@
    } else if flag == "--entrypoint"@ {
        "    entrypoint: "@
    } else if flag == "--user"@ {
        "    user: "@
    } else if flag == "--workdir"@ || flag == "-w"@ {
        "    working_dir: "@
    } else if flag == "--cpus"@ {
        "    cpus: "@
    } else {
        "    env_file: "@
    }
}

/// `docker run <flag> <value> <image>` with a single-valued flag gives a
/// compose document whose service shows the value on the flag's line, for
/// every value and every image word: `--user U` gives `user: U`, `--name N`
/// gives `container_name: N`, and so on.
pub proof fn law_run_flag_reaches_document(
    flag: Seq<char>,
    v: Seq<char>,
    img: Seq<char>,
    name: Seq<char>,
)
    requires
        flag == "--name"@ || flag == "--hostname"@ || flag == "--restart"@ || flag
            == "--entrypoint"@ || flag == "--user"@ || flag == "--workdir"@ || flag == "-w"@
            || flag == "--cpus"@ || flag == "--env-file"@,
        image_word(img),
    ensures
        compose_for_words(seq!["docker"@, "run"@, flag, v, img], name) matches Ok(doc)
            && contains_seq(doc, "    image: "@ + img + "\n"@) && contains_seq(
            doc,
            document_key(flag) + v + "\n"@,
        ),
{
    let args = seq!["docker"@, "run"@, flag, v, img];
    reveal_strlit("docker");
    reveal_strlit("run");
    assert("docker"@.len() == 6 && "run"@.len() == 3);
    assert(args[1] == "run"@);
    assert(args.contains("run"@));
    assert(is_first(args, "run"@, 1));
    lemma_first_unique(args, "run"@, 1);
    let rest = args.skip(2);
    assert(rest =~= seq![flag, v, img]);
    let svc0 = empty_service(name);
    law_value_flags_set_their_field(v, img, svc0);
    lemma_flag_literals();
    let svc = run_args(rest, 0, svc0)->Ok_0;
    law_document_shows_scalar_fields(svc);
}

/// Each pair of a list has its own `key: value` line.
proof fn lemma_pair_line(ps: Seq<(Seq<char>, Seq<char>)>, i: int)
    requires
        0 <= i < ps.len(),
    ensures
        contains_seq(pair_lines(ps), "      "@ + ps[i].0 + ": "@ + ps[i].1 + "\n"@),
    decreases ps.len(),
{
    let init = ps.drop_last();
    let line = "      "@ + ps.last().0 + ": "@ + ps.last().1 + "\n"@;
    assert(pair_lines(ps) == pair_lines(init) + line);
    if i == ps.len() - 1 {
        lemma_contains_right(pair_lines(init), line);
    } else {
        assert(init[i] == ps[i]);
        lemma_pair_line(init, i);
        lemma_contains_left(pair_lines(init), line);
        lemma_contains_trans(pair_lines(ps), pair_lines(init), "      "@ + ps[i].0 + ": "@ + ps[i].1 + "\n"@);
    }
}

/// Each bare key of a list has its own line.
proof fn lemma_key_line(ks: Seq<Seq<char>>, i: int)
    requires
        0 <= i < ks.len(),
    ensures
        contains_seq(key_lines(ks), "      "@ + ks[i] + "\n"@),
    decreases ks.len(),
{
    let init = ks.drop_last();
    let line = "      "@ + ks.last() + "\n"@;
    assert(key_lines(ks) == key_lines(init) + line);
    if i == ks.len() - 1 {
        lemma_contains_right(key_lines(init), line);
    } else {
        assert(init[i] == ks[i]);
        lemma_key_line(init, i);
        lemma_contains_left(key_lines(init), line);
        lemma_contains_trans(key_lines(ks), key_lines(init), "      "@ + ks[i] + "\n"@);
    }
}

/// The key/value sections of a service occur among its sections.
proof fn lemma_pair_section_parts(svc: ServiceView)
    ensures
        contains_seq(section_lines(svc), env_section(svc.environment, svc.environment_keys)),
        contains_seq(section_lines(svc), pair_section("    labels:\n"@, svc.labels)),
        contains_seq(section_lines(svc), pair_section("    sysctls:\n"@, svc.sysctls)),
{
    let l0 = list_section("    ports:\n"@, svc.ports);
    let l1 = list_section("    volumes:\n"@, svc.volumes);
    let l2 = list_section("    devices:\n"@, svc.devices);
    let l3 = list_section("    dns:\n"@, svc.dns);
    let l4 = env_section(svc.environment, svc.environment_keys);
    let l5 = pair_section("    labels:\n"@, svc.labels);
    let l6 = pair_section("    sysctls:\n"@, svc.sysctls);
    let l7 = list_section("    networks:\n"@, svc.networks);
    let l8 = list_section("    command:\n"@, svc.command);
    let s3 = l0 + l1 + l2 + l3;
    let s4 = s3 + l4;
    let s5 = s4 + l5;
    let s6 = s5 + l6;
    let s7 = s6 + l7;
    let s8 = s7 + l8;
    assert(section_lines(svc) == s8);
    lemma_contains_left(s7, l8);
    lemma_contains_left(s6, l7);
    lemma_contains_trans(s8, s7, s6);
    lemma_contains_right(s5, l6);
    lemma_contains_left(s5, l6);
    lemma_contains_trans(s8, s6, l6);
    lemma_contains_trans(s8, s6, s5);
    lemma_contains_right(s4, l5);
    lemma_contains_left(s4, l5);
    lemma_contains_trans(s8, s5, l5);
    lemma_contains_trans(s8, s5, s4);
    lemma_contains_right(s3, l4);
    lemma_contains_trans(s8, s4, l4);
}

/// A key/value section puts its header and every pair into the document.
proof fn lemma_pair_in_document(
    y: Seq<char>,
    sec: Seq<char>,
    header: Seq<char>,
    ps: Seq<(Seq<char>, Seq<char>)>,
    i: int,
)
    requires
        0 <= i < ps.len(),
        contains_seq(y, sec),
        contains_seq(sec, pair_section(header, ps)),
    ensures
        contains_seq(y, header),
        contains_seq(y, "      "@ + ps[i].0 + ": "@ + ps[i].1 + "\n"@),
{
    let s = pair_section(header, ps);
    assert(s == header + pair_lines(ps));
    lemma_contains_left(header, pair_lines(ps));
    lemma_contains_right(header, pair_lines(ps));
    lemma_pair_line(ps, i);
    lemma_contains_trans(s, pair_lines(ps), "      "@ + ps[i].0 + ": "@ + ps[i].1 + "\n"@);
    lemma_contains_trans(y, sec, s);
    lemma_contains_trans(y, s, header);
    lemma_contains_trans(y, s, "      "@ + ps[i].0 + ": "@ + ps[i].1 + "\n"@);
}

/// The compose document shows every environment variable, bare variable
/// name, label and sysctl of the service on its own line under its
/// section's header.
pub proof fn law_document_lists_every_pair(svc: ServiceView, i: int)
    ensures
        0 <= i < svc.environment.len() ==> contains_seq(yaml(svc), "    environment:\n"@)
            && contains_seq(
            yaml(svc),
            "      "@ + svc.environment[i].0 + ": "@ + svc.environment[i].1 + "\n"@,
        ),
        0 <= i < svc.environment_keys.len() ==> contains_seq(yaml(svc), "    environment:\n"@)
            && contains_seq(yaml(svc), "      "@ + svc.environment_keys[i] + "\n"@),
        0 <= i < svc.labels.len() ==> contains_seq(yaml(svc), "    labels:\n"@) && contains_seq(
            yaml(svc),
            "      "@ + svc.labels[i].0 + ": "@ + svc.labels[i].1 + "\n"@,
        ),
        0 <= i < svc.sysctls.len() ==> contains_seq(yaml(svc), "    sysctls:\n"@) && contains_seq(
            yaml(svc),
            "      "@ + svc.sysctls[i].0 + ": "@ + svc.sysctls[i].1 + "\n"@,
        ),
{
    let y = yaml(svc);
    let sec = section_lines(svc);
    lemma_document_parts(svc);
    lemma_pair_section_parts(svc);
    if 0 <= i < svc.labels.len() {
        lemma_pair_in_document(y, sec, "    labels:\n"@, svc.labels, i);
    }
    if 0 <= i < svc.sysctls.len() {
        lemma_pair_in_document(y, sec, "    sysctls:\n"@, svc.sysctls, i);
    }
    let env = env_section(svc.environment, svc.environment_keys);
    lemma_contains_trans(y, sec, env);
    if svc.environment.len() > 0 || svc.environment_keys.len() > 0 {
        let h = "    environment:\n"@;
        let pl = pair_lines(svc.environment);
        let kl = key_lines(svc.environment_keys);
        assert(env == h + pl + kl);
        lemma_contains_mid(Seq::empty(), h, pl + kl);
        assert(Seq::<char>::empty() + h + (pl + kl) =~= env);
        lemma_contains_trans(y, env, h);
        lemma_contains_mid(h, pl, kl);
        lemma_contains_right(h + pl, kl);
        lemma_contains_trans(y, env, pl);
        lemma_contains_trans(y, env, kl);
        if 0 <= i < svc.environment.len() {
            lemma_pair_line(svc.environment, i);
            lemma_contains_trans(
                y,
                pl,
                "      "@ + svc.environment[i].0 + ": "@ + svc.environment[i].1 + "\n"@,
            );
        }
        if 0 <= i < svc.environment_keys.len() {
            lemma_key_line(svc.environment_keys, i);
            lemma_contains_trans(y, kl, "      "@ + svc.environment_keys[i] + "\n"@);
        }
    }
}

} // verus!
