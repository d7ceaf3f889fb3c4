//! Log history, backups and what the Docker command line prints.
use vstd::prelude::*;

use crate::convert::{opt_view, push_string, strings_view};
use crate::json::{json_error, json_str_at, parse_error, str_at};
use crate::text::{
    chars_of, contains_seq, contains_str, lines, lines_chars, push_str, split_char, split_chars,
    string_of, trim, trim_chars,
};

verus! {

// ───── Log history ─────

/// The longest piece of a log stored in one row, in bytes.
pub const LOG_CHUNK: usize = 4096;

/// A log's bytes cut into pieces of `LOG_CHUNK` bytes, the last one
/// shorter; nothing for an empty log.
pub open spec fn log_chunks(b: Seq<u8>) -> Seq<Seq<u8>>
    decreases b.len(),
{
    if b.len() == 0 {
        Seq::empty()
    } else if b.len() <= LOG_CHUNK {
        seq![b]
    } else {
        seq![b.take(LOG_CHUNK as int)] + log_chunks(b.skip(LOG_CHUNK as int))
    }
}

/// Cuts a log into the pieces that are stored one per row.
pub fn split_log(logs: &str) -> (r: Vec<Vec<u8>>)
    ensures
        r@.map_values(|v: Vec<u8>| v@) == log_chunks(vstd::utf8::encode_utf8(logs@)),
{
    let bytes = logs.as_bytes();
    let ghost b = bytes@;
    let mut out: Vec<Vec<u8>> = Vec::new();
    let mut i: usize = 0;
    proof {
        assert(b.skip(0) =~= b);
        assert(out@.map_values(|v: Vec<u8>| v@) + log_chunks(b.skip(0)) =~= log_chunks(b));
    }
    while i < bytes.len()
        invariant
            i <= b.len(),
            b == bytes@,
            out@.map_values(|v: Vec<u8>| v@) + log_chunks(b.skip(i as int)) == log_chunks(b),
        decreases b.len() - i,
    {
        let rest = bytes.len() - i;
        let n = if rest <= LOG_CHUNK {
            rest
        } else {
            LOG_CHUNK
        };
        let mut chunk: Vec<u8> = Vec::new();
        let mut j: usize = 0;
        while j < n
            invariant
                j <= n,
                i + n <= bytes.len(),
                b == bytes@,
                chunk@ == b.subrange(i as int, i + j),
            decreases n - j,
        {
            chunk.push(bytes[i + j]);
            proof {
                assert(chunk@ =~= b.subrange(i as int, i + j + 1));
            }
            j = j + 1;
        }
        let ghost before = out@.map_values(|v: Vec<u8>| v@);
        proof {
            let s = b.skip(i as int);
            if rest <= LOG_CHUNK {
                assert(chunk@ =~= s);
                assert(b.skip(i + n) =~= Seq::<u8>::empty());
                assert(log_chunks(s) == seq![s]);
            } else {
                assert(chunk@ =~= s.take(LOG_CHUNK as int));
                assert(s.skip(LOG_CHUNK as int) =~= b.skip(i + n));
            }
        }
        out.push(chunk);
        proof {
            assert(out@.map_values(|v: Vec<u8>| v@) =~= before.push(b.subrange(i as int, i + n)));
            let s = b.skip(i as int);
            assert(before + log_chunks(s) == log_chunks(b));
            if rest <= LOG_CHUNK {
                assert(log_chunks(b.skip(i + n)) =~= Seq::<Seq<u8>>::empty());
                assert(before.push(s) + log_chunks(b.skip(i + n)) =~= before + log_chunks(s));
            } else {
                assert(log_chunks(s) == seq![s.take(LOG_CHUNK as int)] + log_chunks(
                    b.skip(i + n),
                ));
                assert(before.push(s.take(LOG_CHUNK as int)) + log_chunks(b.skip(i + n))
                    =~= before + log_chunks(s));
            }
        }
        i = i + n;
    }
    proof {
        assert(b.skip(i as int) =~= Seq::<u8>::empty());
        assert(out@.map_values(|v: Vec<u8>| v@) + Seq::<Seq<u8>>::empty() =~= out@.map_values(
            |v: Vec<u8>| v@,
        ));
    }
    out
}

/// Query of the log history endpoint.
pub struct LogsQuery {
    pub limit: Option<i64>,
    pub offset: Option<i64>,
}

impl LogsQuery {
    /// The page to read: 100 entries by default and never more than 1000,
    /// from the start by default.
    pub fn page(&self) -> (r: (i64, i64))
        ensures
            r.0 == (match self.limit {
                Some(l) => if l < 1000 {
                    l
                } else {
                    1000
                },
                None => 100,
            }),
            r.1 == (match self.offset {
                Some(o) => o,
                None => 0,
            }),
    {
        let limit = match self.limit {
            Some(l) => if l < 1000 {
                l
            } else {
                1000
            },
            None => 100,
        };
        let offset = match self.offset {
            Some(o) => o,
            None => 0,
        };
        (limit, offset)
    }
}

/// A streamed log line, marked with the container it came from.
pub fn tagged_line(container: &str, text: &str) -> (r: String)
    ensures
        r@ == "["@ + container@ + "] "@ + text@,
{
    let mut out = chars_of("[");
    push_str(&mut out, container);
    push_str(&mut out, "] ");
    push_str(&mut out, text);
    string_of(out.as_slice())
}

// ───── Command output ─────

/// The non-empty trimmed lines of a command's output, trimmed.
pub open spec fn trimmed_lines(ls: Seq<Seq<char>>) -> Seq<Seq<char>>
    decreases ls.len(),
{
    if ls.len() == 0 {
        Seq::empty()
    } else {
        trimmed_lines(ls.drop_last()) + if trim(ls.last()).len() > 0 {
            seq![trim(ls.last())]
        } else {
            Seq::empty()
        }
    }
}

/// The container names `docker compose ps --format '{{.Name}}'` prints:
/// its non-blank lines, trimmed.
pub fn listed_names(output: &str) -> (r: Vec<String>)
    ensures
        strings_view(r@) == trimmed_lines(lines(output@)),
{
    let ls = lines_chars(chars_of(output).as_slice());
    let ghost lv = lines(output@);
    let mut out: Vec<String> = Vec::new();
    let mut i: usize = 0;
    proof {
        assert(ls@.map_values(|v: Vec<char>| v@) == lv);
        assert(lv.take(0) =~= Seq::<Seq<char>>::empty());
        assert(strings_view(out@) =~= Seq::<Seq<char>>::empty());
    }
    while i < ls.len()
        invariant
            i <= ls@.len(),
            ls@.map_values(|v: Vec<char>| v@) == lv,
            strings_view(out@) == trimmed_lines(lv.take(i as int)),
        decreases ls@.len() - i,
    {
        proof {
            assert(lv.take(i + 1).drop_last() =~= lv.take(i as int));
            assert(lv.take(i + 1).last() == ls@[i as int]@);
        }
        let t = trim_chars(ls[i].as_slice());
        if t.len() > 0 {
            push_string(&mut out, string_of(t.as_slice()));
        } else {
            proof {
                assert(strings_view(out@) =~= strings_view(out@) + Seq::<Seq<char>>::empty());
            }
        }
        i = i + 1;
    }
    proof {
        assert(lv.take(i as int) =~= lv);
    }
    out
}

/// How many lines of the output are not empty.
pub open spec fn nonempty_count(ls: Seq<Seq<char>>) -> nat
    decreases ls.len(),
{
    if ls.len() == 0 {
        0
    } else {
        nonempty_count(ls.drop_last()) + if ls.last().len() > 0 {
            1nat
        } else {
            0nat
        }
    }
}

/// Counts the non-empty lines of a command's output (one id per line for
/// `docker ps -q` and `docker images -q`).
pub fn count_lines(output: &str) -> (r: u64)
    ensures
        r == nonempty_count(lines(output@)),
{
    let ls = lines_chars(chars_of(output).as_slice());
    let ghost lv = lines(output@);
    let mut n: u64 = 0;
    let mut i: usize = 0;
    proof {
        assert(ls@.map_values(|v: Vec<char>| v@) == lv);
    }
    while i < ls.len()
        invariant
            i <= ls@.len(),
            ls@.map_values(|v: Vec<char>| v@) == lv,
            n == nonempty_count(lv.take(i as int)),
            n <= i,
        decreases ls@.len() - i,
    {
        proof {
            assert(lv.take(i + 1).drop_last() =~= lv.take(i as int));
            assert(lv.take(i + 1).last() == ls@[i as int]@);
        }
        if ls[i].len() > 0 {
            n = n + 1;
        }
        i = i + 1;
    }
    proof {
        assert(lv.take(i as int) =~= lv);
    }
    n
}

/// A command's output trimmed, or nothing when that is empty.
pub fn trimmed_output(output: &str) -> (r: Option<String>)
    ensures
        opt_view(r) == (if trim(output@).len() == 0 {
            None
        } else {
            Some(trim(output@))
        }),
{
    let t = trim_chars(chars_of(output).as_slice());
    if t.len() == 0 {
        None
    } else {
        Some(string_of(t.as_slice()))
    }
}

/// The first line of a command's output, or nothing when there is none or
/// it is empty.
pub fn first_line(output: &str) -> (r: Option<String>)
    ensures
        opt_view(r) == (if lines(output@).len() > 0 && lines(output@)[0].len() > 0 {
            Some(lines(output@)[0])
        } else {
            None
        }),
{
    let ls = lines_chars(chars_of(output).as_slice());
    proof {
        assert(ls@.map_values(|v: Vec<char>| v@) == lines(output@));
    }
    if ls.len() > 0 && ls[0].len() > 0 {
        proof {
            assert(ls@.map_values(|v: Vec<char>| v@)[0] == ls@[0]@);
        }
        Some(string_of(ls[0].as_slice()))
    } else {
        proof {
            if ls@.len() > 0 {
                assert(ls@.map_values(|v: Vec<char>| v@)[0] == ls@[0]@);
            }
        }
        None
    }
}

/// The name of the archive a stack is exported as.
pub fn export_file_name(stack_name: &str) -> (r: String)
    ensures
        r@ == stack_name@ + "-stack.zip"@,
{
    let mut out = chars_of(stack_name);
    push_str(&mut out, "-stack.zip");
    string_of(out.as_slice())
}

/// Whether `docker config ls` failed only because the node runs no swarm.
pub open spec fn configs_unavailable(stderr: Seq<char>) -> bool {
    contains_seq(stderr, "is not a swarm manager"@) || contains_seq(
        stderr,
        "This node is not a swarm manager"@,
    )
}

/// Whether the failure of `docker config ls` only means that no swarm runs
/// here, so that the list is empty.
pub fn no_swarm_configs(stderr: &str) -> (r: bool)
    ensures
        r == configs_unavailable(stderr@),
{
    let c = chars_of(stderr);
    contains_str(c.as_slice(), "is not a swarm manager") || contains_str(
        c.as_slice(),
        "This node is not a swarm manager",
    )
}

/// Whether listing secrets failed only because no swarm runs here.
pub open spec fn secrets_unavailable(message: Seq<char>) -> bool {
    contains_seq(message, "Swarm does not have a leader"@) || contains_seq(
        message,
        "is not a swarm manager"@,
    ) || contains_seq(message, "This node is not a swarm manager"@)
}

/// Whether the failure to list secrets only means that no swarm runs here,
/// so that the list is empty.
pub fn no_swarm_secrets(message: &str) -> (r: bool)
    ensures
        r == secrets_unavailable(message@),
{
    let c = chars_of(message);
    contains_str(c.as_slice(), "Swarm does not have a leader") || contains_str(
        c.as_slice(),
        "is not a swarm manager",
    ) || contains_str(c.as_slice(), "This node is not a swarm manager")
}

/// One Docker config, as the list of configs shows it.
pub struct ConfigItem {
    pub id: String,
    pub name: String,
    pub created_at: String,
    pub updated_at: String,
}

/// A config's fields, in the order of the struct.
pub open spec fn config_item_view(c: ConfigItem) -> (Seq<char>, Seq<char>, Seq<char>, Seq<char>) {
    (c.id@, c.name@, c.created_at@, c.updated_at@)
}

/// The string field `key` of the JSON object on a line, or empty.
pub open spec fn line_field(line: Seq<char>, key: Seq<char>) -> Seq<char> {
    match json_str_at(line, "/"@ + key) {
        Some(v) => v,
        None => Seq::empty(),
    }
}

/// The config that one line of `docker config ls --format '{{json .}}'`
/// describes: its `ID`, `Name`, `CreatedAt` and `UpdatedAt`, each empty
/// where the line holds no such string.
pub open spec fn config_row(line: Seq<char>) -> (Seq<char>, Seq<char>, Seq<char>, Seq<char>) {
    (
        line_field(line, "ID"@),
        line_field(line, "Name"@),
        line_field(line, "CreatedAt"@),
        line_field(line, "UpdatedAt"@),
    )
}

/// The configs of the listed lines, in order: one for each non-empty line
/// that is JSON; the others are skipped.
pub open spec fn config_rows(ls: Seq<Seq<char>>) -> Seq<(Seq<char>, Seq<char>, Seq<char>, Seq<char>)>
    decreases ls.len(),
{
    if ls.len() == 0 {
        Seq::empty()
    } else {
        config_rows(ls.drop_last()) + if ls.last().len() > 0 && json_error(ls.last()) is None {
            seq![config_row(ls.last())]
        } else {
            Seq::empty()
        }
    }
}

/// The string field `key` of the JSON object on a line, or empty.
fn read_line_field(line: &str, key: &str) -> (r: String)
    ensures
        r@ == line_field(line@, key@),
{
    let mut p = chars_of("/");
    push_str(&mut p, key);
    proof {
        reveal_strlit("/");
    }
    let ps = string_of(p.as_slice());
    match str_at(line, ps.as_str()) {
        Some(v) => v,
        None => String::new(),
    }
}

/// The configs that `docker config ls --format '{{json .}}'` printed, one
/// per non-empty line that is JSON, in the order of the lines.
pub fn config_items(stdout: &str) -> (r: Vec<ConfigItem>)
    ensures
        r@.map_values(|c: ConfigItem| config_item_view(c)) == config_rows(lines(stdout@)),
{
    let ls = lines_chars(chars_of(stdout).as_slice());
    let ghost lv = lines(stdout@);
    let mut out: Vec<ConfigItem> = Vec::new();
    let mut i: usize = 0;
    proof {
        assert(ls@.map_values(|v: Vec<char>| v@) == lv);
        assert(lv.take(0) =~= Seq::<Seq<char>>::empty());
        assert(out@.map_values(|c: ConfigItem| config_item_view(c)) =~= config_rows(lv.take(0)));
    }
    while i < ls.len()
        invariant
            i <= ls@.len(),
            ls@.map_values(|v: Vec<char>| v@) == lv,
            out@.map_values(|c: ConfigItem| config_item_view(c)) == config_rows(lv.take(i as int)),
        decreases ls@.len() - i,
    {
        let ghost before = out@.map_values(|c: ConfigItem| config_item_view(c));
        proof {
            assert(lv.take(i + 1).drop_last() =~= lv.take(i as int));
            assert(lv.take(i + 1).last() == ls@[i as int]@);
        }
        let line = string_of(ls[i].as_slice());
        if ls[i].len() > 0 {
            match parse_error(line.as_str()) {
                None => {
                    let item = ConfigItem {
                        id: read_line_field(line.as_str(), "ID"),
                        name: read_line_field(line.as_str(), "Name"),
                        created_at: read_line_field(line.as_str(), "CreatedAt"),
                        updated_at: read_line_field(line.as_str(), "UpdatedAt"),
                    };
                    out.push(item);
                    proof {
                        assert(out@.map_values(|c: ConfigItem| config_item_view(c)) =~= before.push(
                            config_row(line@),
                        ));
                    }
                },
                Some(_) => {
                    proof {
                        assert(before =~= before + Seq::<(Seq<char>, Seq<char>, Seq<char>, Seq<char>)>::empty());
                    }
                },
            }
        } else {
            proof {
                assert(line@.len() == 0);
                assert(before =~= before + Seq::<(Seq<char>, Seq<char>, Seq<char>, Seq<char>)>::empty());
            }
        }
        i = i + 1;
    }
    proof {
        assert(lv.take(i as int) =~= lv);
    }
    out
}

// ───── Backups ─────

/// When and how the data is backed up.
pub struct BackupSchedule {
    pub id: String,
    pub enabled: bool,
    pub cron_expression: String,
    pub retention_days: i64,
    pub include_git: bool,
    pub include_env: bool,
    pub last_run_at: Option<String>,
    pub last_status: Option<String>,
    pub created_at: String,
    pub updated_at: String,
}

/// The schedule a settings request asks for, created at `now` with the
/// id `id`: enabled, daily at three, kept for thirty days, with git and
/// env files, for each field the request leaves out; never run yet.
pub fn schedule_from(
    id: String,
    now: String,
    enabled: Option<bool>,
    cron_expression: Option<String>,
    retention_days: Option<i64>,
    include_git: Option<bool>,
    include_env: Option<bool>,
) -> (r: BackupSchedule)
    ensures
        r.id == id,
        r.enabled == (match enabled {
            Some(b) => b,
            None => true,
        }),
        r.cron_expression@ == (match cron_expression {
            Some(c) => c@,
            None => "0 3 * * *"@,
        }),
        r.retention_days == (match retention_days {
            Some(d) => d,
            None => 30,
        }),
        r.include_git == (match include_git {
            Some(b) => b,
            None => true,
        }),
        r.include_env == (match include_env {
            Some(b) => b,
            None => true,
        }),
        r.last_run_at is None,
        r.last_status is None,
        r.created_at@ == now@,
        r.updated_at@ == now@,
{
    BackupSchedule {
        id,
        enabled: match enabled {
            Some(b) => b,
            None => true,
        },
        cron_expression: match cron_expression {
            Some(c) => c,
            None => string_of(chars_of("0 3 * * *").as_slice()),
        },
        retention_days: match retention_days {
            Some(d) => d,
            None => 30,
        },
        include_git: match include_git {
            Some(b) => b,
            None => true,
        },
        include_env: match include_env {
            Some(b) => b,
            None => true,
        },
        last_run_at: None,
        last_status: None,
        created_at: now.clone(),
        updated_at: now,
    }
}

/// Seconds in a day.
pub const DAY_SECONDS: i64 = 86400;

/// Whether a backup file last modified at `modified` (seconds) has outlived
/// a retention of `retention_days` days at `now`: it was modified before
/// the cut-off `now - retention_days` days.
pub fn backup_expired(modified: i64, now: i64, retention_days: i64) -> (r: bool)
    requires
        -(i64::MAX / DAY_SECONDS) <= retention_days <= i64::MAX / DAY_SECONDS,
        i64::MIN <= now - retention_days * DAY_SECONDS <= i64::MAX,
    ensures
        r == (modified < now - retention_days * DAY_SECONDS),
{
    let cutoff = now - retention_days * DAY_SECONDS;
    modified < cutoff
}

/// The seconds a stack ran, from its start to its stop, never negative.
pub fn run_seconds(started: i64, stopped: i64) -> (r: i64)
    requires
        i64::MIN <= stopped - started <= i64::MAX,
    ensures
        r == (if stopped - started > 0 {
            stopped - started
        } else {
            0
        }),
{
    let d = stopped - started;
    if d > 0 {
        d
    } else {
        0
    }
}

/// The name of a backup archive made at `timestamp`.
pub fn backup_file_name(timestamp: &str) -> (r: String)
    ensures
        r@ == "dockpot-backup-"@ + timestamp@ + ".zip"@,
{
    let mut out = chars_of("dockpot-backup-");
    push_str(&mut out, timestamp);
    push_str(&mut out, ".zip");
    string_of(out.as_slice())
}

/// The non-empty pieces, in order.
pub open spec fn nonempty_pieces(ps: Seq<Seq<char>>) -> Seq<Seq<char>>
    decreases ps.len(),
{
    if ps.len() == 0 {
        Seq::empty()
    } else {
        nonempty_pieces(ps.drop_last()) + if ps.last().len() > 0 {
            seq![ps.last()]
        } else {
            Seq::empty()
        }
    }
}

/// The number in the hour field of a cron expression (its second
/// space-separated field), when that field is a plain number.
pub open spec fn hour_field(expr: Seq<char>) -> Option<u16> {
    let fields = nonempty_pieces(split_char(expr, ' '));
    if fields.len() >= 2 {
        crate::containers::parse_u16_spec(fields[1])
    } else {
        None
    }
}

/// The hour a cron expression names: its hour field when that is a plain
/// number of an hour (`0` to `23`); `None` for any other field (`*`, a list,
/// a range, a step) or a missing one.
pub open spec fn cron_hour_spec(expr: Seq<char>) -> Option<u16> {
    match hour_field(expr) {
        Some(h) => if h < 24 {
            Some(h)
        } else {
            None
        },
        None => None,
    }
}

/// The hour a cron expression such as `0 3 * * *` runs at, when it names
/// one.
pub fn cron_hour(expr: &str) -> (r: Option<u16>)
    ensures
        r == cron_hour_spec(expr@),
{
    let parts = split_chars(chars_of(expr).as_slice(), ' ');
    let ghost ps = split_char(expr@, ' ');
    let mut fields: Vec<Vec<char>> = Vec::new();
    let mut i: usize = 0;
    proof {
        assert(parts@.map_values(|v: Vec<char>| v@) == ps);
        assert(ps.take(0) =~= Seq::<Seq<char>>::empty());
        assert(fields@.map_values(|v: Vec<char>| v@) =~= Seq::<Seq<char>>::empty());
    }
    while i < parts.len()
        invariant
            i <= parts@.len(),
            parts@.map_values(|v: Vec<char>| v@) == ps,
            fields@.map_values(|v: Vec<char>| v@) == nonempty_pieces(ps.take(i as int)),
        decreases parts@.len() - i,
    {
        proof {
            assert(ps.take(i + 1).drop_last() =~= ps.take(i as int));
            assert(ps.take(i + 1).last() == parts@[i as int]@);
        }
        let ghost before = fields@.map_values(|v: Vec<char>| v@);
        if parts[i].len() > 0 {
            let piece = crate::text::slice_chars(parts[i].as_slice(), 0, parts[i].len());
            proof {
                assert(piece@ =~= parts@[i as int]@);
            }
            fields.push(piece);
            proof {
                assert(fields@.map_values(|v: Vec<char>| v@) =~= before.push(parts@[i as int]@));
            }
        } else {
            proof {
                assert(before =~= before + Seq::<Seq<char>>::empty());
            }
        }
        i = i + 1;
    }
    proof {
        assert(ps.take(i as int) =~= ps);
        assert(fields@.map_values(|v: Vec<char>| v@).len() == fields@.len());
    }
    if fields.len() >= 2 {
        proof {
            assert(fields@.map_values(|v: Vec<char>| v@)[1] == fields@[1]@);
        }
        match crate::containers::parse_u16(fields[1].as_slice()) {
            Some(h) => if h < 24 {
                Some(h)
            } else {
                None
            },
            None => None,
        }
    } else {
        None
    }
}

/// Whether the daily backup is due at the UTC hour `now_hour`: the schedule
/// is enabled, the clock is at the hour its cron expression names (any hour
/// when it names none), and the last run, when it is known, was at least 23
/// hours ago.
pub open spec fn backup_is_due(
    enabled: bool,
    cron_hour: Option<u16>,
    now_hour: u32,
    hours_since_last_run: Option<i64>,
) -> bool {
    enabled && (match cron_hour {
        Some(h) => now_hour == h,
        None => true,
    }) && match hours_since_last_run {
        Some(h) => h >= 23,
        None => true,
    }
}

/// Backups run on their cron schedule: whenever a backup is due for the
/// hour that `cron_hour` reads from an expression, the schedule is enabled
/// and, if the expression's hour field names an hour of the day, the clock
/// is at that hour.
pub proof fn law_backup_only_at_cron_hour(
    enabled: bool,
    expr: Seq<char>,
    now_hour: u32,
    hours_since_last_run: Option<i64>,
)
    requires
        backup_is_due(enabled, cron_hour_spec(expr), now_hour, hours_since_last_run),
    ensures
        enabled,
        forall|h: u16| hour_field(expr) == Some(h) && h < 24 ==> now_hour == h,
{
}

/// Whether the daily backup is due at the UTC hour `now_hour`.
pub fn backup_due(
    enabled: bool,
    cron_hour: Option<u16>,
    now_hour: u32,
    hours_since_last_run: Option<i64>,
) -> (r: bool)
    ensures
        r == backup_is_due(enabled, cron_hour, now_hour, hours_since_last_run),
{
    if !enabled {
        return false;
    }
    match cron_hour {
        Some(h) => {
            if now_hour != h as u32 {
                return false;
            }
        },
        None => {},
    }
    match hours_since_last_run {
        Some(h) => h >= 23,
        None => true,
    }
}

/// The status recorded when a scheduled backup failed.
pub fn backup_failure_status(error: &str) -> (r: String)
    ensures
        r@ == "error: "@ + error@,
{
    let mut out = chars_of("error: ");
    push_str(&mut out, error);
    string_of(out.as_slice())
}

// ───── Laws ─────

/// Joining the stored pieces of a log gives the log back, and each piece
/// holds between one and `LOG_CHUNK` bytes.
pub proof fn law_log_chunks(b: Seq<u8>)
    ensures
        log_chunks(b).flatten() == b,
        forall|k: int|
            0 <= k < log_chunks(b).len() ==> 0 < (#[trigger] log_chunks(b)[k]).len() <= LOG_CHUNK,
    decreases b.len(),
{
    if b.len() == 0 {
    } else if b.len() <= LOG_CHUNK {
        let c = log_chunks(b);
        c.lemma_flatten_one_element();
    } else {
        let rest = b.skip(LOG_CHUNK as int);
        law_log_chunks(rest);
        let c = log_chunks(b);
        assert(c.drop_first() =~= log_chunks(rest));
        assert(c.flatten() =~= b.take(LOG_CHUNK as int) + rest);
        assert forall|k: int| 0 <= k < c.len() implies 0 < (#[trigger] c[k]).len() <= LOG_CHUNK by {
            if k > 0 {
                assert(c[k] == log_chunks(rest)[k - 1]);
            }
        }
    }
}

} // verus!
