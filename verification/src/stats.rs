//! Diagnostic snapshots: fixed-column text from the remote host's
//! diagnostic commands, split on whitespace and summarized field by field.
//! Output that does not have the expected shape is reported as a parse
//! error, never an out-of-range failure.

use vstd::prelude::*;
use vstd::string::{StrSliceExecFns, StringExecFns};

use crate::errors::{ErrorKind, TaskError, TaskErrorV};
use crate::strutil::push_char;

verus! {

/// The whitespace the tokenizer splits on.
pub open spec fn is_ws(c: char) -> bool {
    c == ' ' || c == '\t' || c == '\n' || c == '\r'
}

/// The tokens of `s` with `cur` as the partially read token: the maximal
/// whitespace-free runs, in order.
pub open spec fn tokens_acc(s: Seq<char>, cur: Seq<char>) -> Seq<Seq<char>>
    decreases s.len(),
{
    if s.len() == 0 {
        if cur.len() == 0 {
            Seq::empty()
        } else {
            seq![cur]
        }
    } else if is_ws(s[0]) {
        if cur.len() == 0 {
            tokens_acc(s.drop_first(), Seq::empty())
        } else {
            seq![cur] + tokens_acc(s.drop_first(), Seq::empty())
        }
    } else {
        tokens_acc(s.drop_first(), cur.push(s[0]))
    }
}

/// The whitespace-separated tokens of `s`, in order.
pub open spec fn tokens(s: Seq<char>) -> Seq<Seq<char>> {
    tokens_acc(s, Seq::empty())
}

/// The views of a sequence of owned tokens.
pub open spec fn token_views(ts: Seq<String>) -> Seq<Seq<char>> {
    ts.map_values(|t: String| t@)
}

/// Split a line of diagnostic output into its whitespace-separated tokens.
pub fn split_tokens(s: &str) -> (out: Vec<String>)
    ensures
        token_views(out@) == tokens(s@),
{
    let n = s.unicode_len();
    let mut out: Vec<String> = Vec::new();
    let mut cur = String::new();
    let mut i: usize = 0;
    proof {
        assert(s@.skip(0) =~= s@);
        assert(token_views(out@) + tokens_acc(s@.skip(0), cur@) =~= tokens(s@));
    }
    while i < n
        invariant
            i <= n,
            n == s@.len(),
            token_views(out@) + tokens_acc(s@.skip(i as int), cur@) =~= tokens(s@),
        decreases n - i,
    {
        let c = s.get_char(i);
        let ghost prev_out = out@;
        let ghost prev_cur = cur@;
        proof {
            assert(s@.skip(i as int)[0] == c);
            assert(s@.skip(i as int).drop_first() =~= s@.skip(i + 1));
        }
        if c == ' ' || c == '\t' || c == '\n' || c == '\r' {
            proof {
                assert(is_ws(c));
            }
            if !cur.as_str().is_empty() {
                out.push(cur);
                cur = String::new();
                proof {
                    assert(tokens_acc(s@.skip(i as int), prev_cur) == seq![prev_cur] + tokens_acc(
                        s@.skip(i + 1),
                        Seq::<char>::empty(),
                    ));
                    assert(token_views(out@) =~= token_views(prev_out).push(prev_cur));
                    assert(token_views(out@) + tokens_acc(s@.skip(i + 1), cur@) =~= tokens(s@));
                }
            } else {
                proof {
                    assert(tokens_acc(s@.skip(i as int), prev_cur) == tokens_acc(
                        s@.skip(i + 1),
                        Seq::<char>::empty(),
                    ));
                    assert(cur@ =~= Seq::<char>::empty());
                }
            }
        } else {
            push_char(&mut cur, c);
            proof {
                assert(!is_ws(c));
                assert(tokens_acc(s@.skip(i as int), prev_cur) == tokens_acc(
                    s@.skip(i + 1),
                    prev_cur.push(c),
                ));
            }
        }
        i = i + 1;
    }
    proof {
        assert(s@.skip(n as int) =~= Seq::<char>::empty());
    }
    if !cur.as_str().is_empty() {
        let ghost prev_out = out@;
        let ghost prev_cur = cur@;
        out.push(cur);
        proof {
            assert(tokens_acc(Seq::<char>::empty(), prev_cur) == seq![prev_cur]);
            assert(token_views(out@) =~= token_views(prev_out).push(prev_cur));
            assert(token_views(out@) =~= tokens(s@));
        }
    } else {
        proof {
            assert(tokens_acc(Seq::<char>::empty(), cur@) == Seq::<Seq<char>>::empty());
            assert(token_views(out@) =~= tokens(s@));
        }
    }
    out
}

/// The mathematical model of a diagnostic snapshot.
pub struct ServerStatsV {
    pub cpu_usage: Seq<char>,
    pub memory_usage: Seq<char>,
    pub disk_usage: Seq<char>,
}

/// A diagnostic snapshot of the remote host: one summary line each for
/// processor, memory and disk utilization. Recomputed on demand, never
/// persisted.
#[derive(Debug, Clone)]
pub struct ServerStats {
    pub cpu_usage: String,
    pub memory_usage: String,
    pub disk_usage: String,
}

impl View for ServerStats {
    type V = ServerStatsV;

    open spec fn view(&self) -> ServerStatsV {
        ServerStatsV {
            cpu_usage: self.cpu_usage@,
            memory_usage: self.memory_usage@,
            disk_usage: self.disk_usage@,
        }
    }
}

/// The processor summary drawn from the tokens of the processor line.
pub open spec fn cpu_summary_of(ts: Seq<Seq<char>>) -> Seq<char>
    recommends
        ts.len() >= 16,
{
    "User: "@ + ts[1] + "%, System: "@ + ts[3] + "%, Idle: "@ + ts[7] + "%, Steal: "@ + ts[15]
        + "%"@
}

/// The memory summary drawn from the tokens of the memory line.
pub open spec fn memory_summary_of(ts: Seq<Seq<char>>) -> Seq<char>
    recommends
        ts.len() >= 6,
{
    "Total: "@ + ts[1] + ", Used: "@ + ts[2] + ", Free: "@ + ts[3] + ", Buffers/Cache: "@ + ts[5]
}

/// The disk summary drawn from the tokens of the disk line.
pub open spec fn disk_summary_of(ts: Seq<Seq<char>>) -> Seq<char>
    recommends
        ts.len() >= 5,
{
    "Filesystem: "@ + ts[0] + ", Total: "@ + ts[1] + ", Used: "@ + ts[2] + ", Available: "@
        + ts[3] + ", Usage: "@ + ts[4]
}

/// A parse error naming the line that did not have the expected shape.
pub open spec fn parse_error(detail: Seq<char>) -> TaskErrorV {
    TaskErrorV { kind: ErrorKind::Parse, detail: detail }
}

/// What a snapshot is for given diagnostic output: the three summaries if
/// each line splits into enough fields, otherwise a parse error naming the
/// first line that fell short. The processor line must have at least 16
/// fields, the memory line 6, the disk line 5.
pub open spec fn spec_process_stats(cpu: Seq<char>, mem: Seq<char>, disk: Seq<char>) -> Result<
    ServerStatsV,
    TaskErrorV,
> {
    if tokens(cpu).len() < 16 {
        Err(parse_error("unexpected CPU usage format"@))
    } else if tokens(mem).len() < 6 {
        Err(parse_error("unexpected memory usage format"@))
    } else if tokens(disk).len() < 5 {
        Err(parse_error("unexpected disk usage format"@))
    } else {
        Ok(
            ServerStatsV {
                cpu_usage: cpu_summary_of(tokens(cpu)),
                memory_usage: memory_summary_of(tokens(mem)),
                disk_usage: disk_summary_of(tokens(disk)),
            },
        )
    }
}

/// The view of a snapshot-or-error outcome.
pub open spec fn stats_result_view(r: Result<ServerStats, TaskError>) -> Result<
    ServerStatsV,
    TaskErrorV,
> {
    match r {
        Ok(s) => Ok(s@),
        Err(e) => Err(e@),
    }
}

/// Summarize raw diagnostic output — the processor, memory and disk lines —
/// into a snapshot, or report which line did not have the expected shape.
pub fn process_stats(raw_cpu: &str, raw_mem: &str, raw_disk: &str) -> (r: Result<
    ServerStats,
    TaskError,
>)
    ensures
        stats_result_view(r) == spec_process_stats(raw_cpu@, raw_mem@, raw_disk@),
{
    let cpu_parts = split_tokens(raw_cpu);
    if cpu_parts.len() < 16 {
        return Err(
            TaskError::new(ErrorKind::Parse, "unexpected CPU usage format".to_owned()),
        );
    }
    let mem_parts = split_tokens(raw_mem);
    if mem_parts.len() < 6 {
        return Err(
            TaskError::new(ErrorKind::Parse, "unexpected memory usage format".to_owned()),
        );
    }
    let disk_parts = split_tokens(raw_disk);
    if disk_parts.len() < 5 {
        return Err(
            TaskError::new(ErrorKind::Parse, "unexpected disk usage format".to_owned()),
        );
    }

    let mut cpu_usage = String::from_str("User: ");
    cpu_usage.append(cpu_parts[1].as_str());
    cpu_usage.append("%, System: ");
    cpu_usage.append(cpu_parts[3].as_str());
    cpu_usage.append("%, Idle: ");
    cpu_usage.append(cpu_parts[7].as_str());
    cpu_usage.append("%, Steal: ");
    cpu_usage.append(cpu_parts[15].as_str());
    cpu_usage.append("%");

    let mut memory_usage = String::from_str("Total: ");
    memory_usage.append(mem_parts[1].as_str());
    memory_usage.append(", Used: ");
    memory_usage.append(mem_parts[2].as_str());
    memory_usage.append(", Free: ");
    memory_usage.append(mem_parts[3].as_str());
    memory_usage.append(", Buffers/Cache: ");
    memory_usage.append(mem_parts[5].as_str());

    let mut disk_usage = String::from_str("Filesystem: ");
    disk_usage.append(disk_parts[0].as_str());
    disk_usage.append(", Total: ");
    disk_usage.append(disk_parts[1].as_str());
    disk_usage.append(", Used: ");
    disk_usage.append(disk_parts[2].as_str());
    disk_usage.append(", Available: ");
    disk_usage.append(disk_parts[3].as_str());
    disk_usage.append(", Usage: ");
    disk_usage.append(disk_parts[4].as_str());

    Ok(ServerStats { cpu_usage, memory_usage, disk_usage })
}

} // verus!
