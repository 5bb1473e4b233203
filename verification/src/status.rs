//! The status prober: parses the output of the per-session metrics
//! command and folds consecutive samples into server status reports.
//!
//! Every probe runs one composite command over a short-lived exec channel:
//! the cpu line of `/proc/stat`, the totals of `free -b`, the root line of
//! `df /` and the interface totals of `/proc/net/dev`, each guarded with a
//! zero fallback.  The runtime streams the response and hands the raw text
//! to [`parse_status_output`]; [`StatusTracker::observe`] then computes
//! the delta-based cpu percentage and network rates.  All percentages and
//! rates are integers (whole percent, bytes per second).

use vstd::prelude::*;

use crate::ssh::SshError;
use crate::text::{
    spec_dec, spec_parse_u64, spec_trim, split_ws, strings_view, parse_u64, split_nl,
    split_ws_exec, split_nl_exec, trim_ascii_ws, u64_to_dec,
};

verus! {

/// Interval between two status probes of one session, in milliseconds.
pub const STATUS_PROBE_INTERVAL_MS: u64 = 1500;

/// The composite command text of one probe: cpu counters, memory totals,
/// root-disk usage and network totals, one line each, every section
/// falling back to zeros where the source is unavailable.
pub open spec fn spec_status_command() -> Seq<char> {
    "LC_ALL=C awk '/^cpu / {print $2+$3+$4+$5+$6+$7+$8, $5}' /proc/stat 2>/dev/null || echo '0 0'; LC_ALL=C free -b 2>/dev/null | awk 'NR==2{print $2,$3}' || echo '0 0'; LC_ALL=C df / 2>/dev/null | awk 'NR==2{print $2,$3,$5}' || echo '0 0 0%'; LC_ALL=C cat /proc/net/dev 2>/dev/null | awk 'NR>2{rx+=$2; tx+=$10} END{print rx+0,tx+0}' || echo '0 0'"@
}

/// The composite command one probe runs.
pub fn status_command() -> (r: &'static str)
    ensures
        r@ == spec_status_command(),
{
    "LC_ALL=C awk '/^cpu / {print $2+$3+$4+$5+$6+$7+$8, $5}' /proc/stat 2>/dev/null || echo '0 0'; LC_ALL=C free -b 2>/dev/null | awk 'NR==2{print $2,$3}' || echo '0 0'; LC_ALL=C df / 2>/dev/null | awk 'NR==2{print $2,$3,$5}' || echo '0 0 0%'; LC_ALL=C cat /proc/net/dev 2>/dev/null | awk 'NR>2{rx+=$2; tx+=$10} END{print rx+0,tx+0}' || echo '0 0'"
}

/// The trimmed, non-empty lines of a probe response, in order.
pub open spec fn clean_lines(ls: Seq<Seq<char>>) -> Seq<Seq<char>>
    decreases ls.len(),
{
    if ls.len() == 0 {
        Seq::empty()
    } else {
        let rest = clean_lines(ls.drop_last());
        let t = spec_trim(ls.last());
        if t.len() > 0 {
            rest.push(t)
        } else {
            rest
        }
    }
}

/// The lines of a raw probe response that carry data.
pub open spec fn status_lines(out: Seq<char>) -> Seq<Seq<char>> {
    clean_lines(split_nl(out))
}

fn status_lines_exec(out: &str) -> (r: Vec<String>)
    ensures
        strings_view(r@) == status_lines(out@),
{
    let raw = split_nl_exec(out);
    let mut r: Vec<String> = Vec::new();
    let n = raw.len();
    for i in 0..n
        invariant
            n == raw@.len(),
            strings_view(raw@) == split_nl(out@),
            strings_view(r@) == clean_lines(strings_view(raw@).take(i as int)),
    {
        proof {
            assert(strings_view(raw@).take(i as int + 1).drop_last() =~= strings_view(
                raw@,
            ).take(i as int));
            assert(strings_view(raw@).take(i as int + 1).last() == raw@[i as int]@);
        }
        let t = trim_ascii_ws(raw[i].as_str());
        if !t.as_str().is_empty() {
            let ghost r0 = r@;
            r.push(t);
            proof {
                assert(strings_view(r@) =~= strings_view(r0).push(r@.last()@));
            }
        }
    }
    proof {
        assert(strings_view(raw@).take(n as int) =~= strings_view(raw@));
    }
    r
}

/// The unsigned numbers among a list of tokens, unparsable tokens skipped.
pub open spec fn parsed_u64s(toks: Seq<Seq<char>>) -> Seq<u64>
    decreases toks.len(),
{
    if toks.len() == 0 {
        Seq::empty()
    } else {
        let rest = parsed_u64s(toks.drop_last());
        match spec_parse_u64(toks.last()) {
            Some(v) => rest.push(v),
            None => rest,
        }
    }
}

/// The unsigned numbers of one whitespace-separated line.
pub open spec fn line_u64s(line: Seq<char>) -> Seq<u64> {
    parsed_u64s(split_ws(line))
}

fn line_u64s_exec(line: &str) -> (r: Vec<u64>)
    ensures
        r@ == line_u64s(line@),
{
    let toks = split_ws_exec(line);
    let mut r: Vec<u64> = Vec::new();
    let n = toks.len();
    for i in 0..n
        invariant
            n == toks@.len(),
            strings_view(toks@) == split_ws(line@),
            r@ == parsed_u64s(strings_view(toks@).take(i as int)),
    {
        proof {
            assert(strings_view(toks@).take(i as int + 1).drop_last() =~= strings_view(
                toks@,
            ).take(i as int));
            assert(strings_view(toks@).take(i as int + 1).last() == toks@[i as int]@);
        }
        match parse_u64(toks[i].as_str()) {
            Some(v) => r.push(v),
            None => {},
        }
    }
    proof {
        assert(strings_view(toks@).take(n as int) =~= strings_view(toks@));
    }
    r
}

/// `s` with every percent sign removed.
pub open spec fn strip_percent(s: Seq<char>) -> Seq<char>
    decreases s.len(),
{
    if s.len() == 0 {
        Seq::empty()
    } else {
        let rest = strip_percent(s.drop_last());
        if s.last() == '%' {
            rest
        } else {
            rest.push(s.last())
        }
    }
}

fn strip_percent_exec(s: &str) -> (r: String)
    ensures
        r@ == strip_percent(s@),
{
    let n = s.unicode_len();
    let mut r = String::new();
    for i in 0..n
        invariant
            n == s@.len(),
            r@ == strip_percent(s@.take(i as int)),
    {
        proof {
            assert(s@.take(i as int + 1).drop_last() =~= s@.take(i as int));
            assert(s@.take(i as int + 1).last() == s@[i as int]);
        }
        let c = s.get_char(i);
        if c != '%' {
            crate::text::push_char(&mut r, c);
        }
    }
    proof {
        assert(s@.take(n as int) =~= s@);
    }
    r
}

/// The raw counters one probe reports, before any delta computation.
#[derive(Debug, Clone, Copy, PartialEq, Eq, Structural)]
pub struct StatusSample {
    /// Total cpu jiffies since boot.
    pub cpu_total: u64,
    /// Idle cpu jiffies since boot.
    pub cpu_idle: u64,
    /// Memory size in bytes (at least 1; a fallback of 1 stands in for an
    /// unparsable line so percentages stay defined).
    pub mem_total: u64,
    /// Memory in use, bytes.
    pub mem_used: u64,
    /// Root filesystem usage, whole percent, at most 100.
    pub disk_pct: u64,
    /// Bytes received since boot, all interfaces.
    pub net_rx: u64,
    /// Bytes sent since boot, all interfaces.
    pub net_tx: u64,
}

/// The cpu counters of the first data line: exactly two numbers, else
/// zeros.
pub open spec fn spec_cpu_pair(line: Seq<char>) -> (u64, u64) {
    let v = line_u64s(line);
    if v.len() == 2 {
        (v[0], v[1])
    } else {
        (0, 0)
    }
}

/// The memory counters of the second data line: exactly two numbers with
/// a positive total, else the `(1, 0)` fallback.
pub open spec fn spec_mem_pair(line: Seq<char>) -> (u64, u64) {
    let v = line_u64s(line);
    if v.len() == 2 && v[0] > 0 {
        (v[0], v[1])
    } else {
        (1, 0)
    }
}

/// The disk usage of the third data line: its third token with percent
/// signs stripped, parsed and capped at 100; zero where absent or
/// unparsable.
pub open spec fn spec_disk_pct(line: Seq<char>) -> u64 {
    let toks = split_ws(line);
    if toks.len() >= 3 {
        let v = match spec_parse_u64(strip_percent(toks[2])) {
            Some(v) => v,
            None => 0u64,
        };
        if v > 100 {
            100
        } else {
            v
        }
    } else {
        0
    }
}

/// The network counters of the fourth data line: exactly two numbers,
/// else zeros.
pub open spec fn spec_net_pair(line: Seq<char>) -> (u64, u64) {
    let v = line_u64s(line);
    if v.len() == 2 {
        (v[0], v[1])
    } else {
        (0, 0)
    }
}

/// What a raw probe response parses to: its counters when it has at least
/// four data lines, nothing otherwise.
pub open spec fn spec_parse_status(out: Seq<char>) -> Option<StatusSample> {
    let lines = status_lines(out);
    if lines.len() < 4 {
        None
    } else {
        Some(
            StatusSample {
                cpu_total: spec_cpu_pair(lines[0]).0,
                cpu_idle: spec_cpu_pair(lines[0]).1,
                mem_total: spec_mem_pair(lines[1]).0,
                mem_used: spec_mem_pair(lines[1]).1,
                disk_pct: spec_disk_pct(lines[2]),
                net_rx: spec_net_pair(lines[3]).0,
                net_tx: spec_net_pair(lines[3]).1,
            },
        )
    }
}

/// Parses one probe response.  A response with fewer than four data lines
/// is rejected with the line count in the error; such a failure skips the
/// tick without tearing the session down.
pub fn parse_status_output(out: &str) -> (r: Result<StatusSample, SshError>)
    ensures
        (match r {
            Ok(s) => spec_parse_status(out@) == Some(s),
            Err(e) => spec_parse_status(out@) is None && (e matches SshError::OperationFailed(m)
                && m@ == "Invalid status output format (lines: "@ + spec_dec(
                status_lines(out@).len(),
            ) + ")"@),
        }),
{
    let lines = status_lines_exec(out);
    if lines.len() < 4 {
        let mut m = String::from_str("Invalid status output format (lines: ");
        let c = u64_to_dec(lines.len() as u64);
        m.append(c.as_str());
        m.append(")");
        return Err(SshError::OperationFailed(m));
    }
    let cpu = line_u64s_exec(lines[0].as_str());
    let (cpu_total, cpu_idle): (u64, u64) = if cpu.len() == 2 {
        (cpu[0], cpu[1])
    } else {
        (0, 0)
    };
    let mem = line_u64s_exec(lines[1].as_str());
    let (mem_total, mem_used): (u64, u64) = if mem.len() == 2 && mem[0] > 0 {
        (mem[0], mem[1])
    } else {
        (1, 0)
    };
    let disk_toks = split_ws_exec(lines[2].as_str());
    let disk_pct: u64 = if disk_toks.len() >= 3 {
        let stripped = strip_percent_exec(disk_toks[2].as_str());
        let v = match parse_u64(stripped.as_str()) {
            Some(v) => v,
            None => 0,
        };
        if v > 100 {
            100
        } else {
            v
        }
    } else {
        0
    };
    let net = line_u64s_exec(lines[3].as_str());
    let (net_rx, net_tx): (u64, u64) = if net.len() == 2 {
        (net[0], net[1])
    } else {
        (0, 0)
    };
    Ok(StatusSample { cpu_total, cpu_idle, mem_total, mem_used, disk_pct, net_rx, net_tx })
}

/// One server status report: integer percentages, byte counters and
/// bytes-per-second rates, and the probe's round-trip latency.
#[derive(Debug, Clone, Copy, PartialEq, Eq, Structural)]
pub struct ServerStatus {
    pub cpu_usage: u64,
    pub mem_usage: u64,
    pub mem_total: u64,
    pub mem_used: u64,
    pub disk_usage: u64,
    pub net_up: u64,
    pub net_down: u64,
    pub latency: u32,
}

/// Cpu usage percentage from two consecutive counter samples: the busy
/// share of the elapsed jiffies, 0 without a prior sample or without
/// progress.  Counters that went backwards count as zero deltas.
pub open spec fn spec_cpu_pct(prev: Option<(u64, u64)>, total: u64, idle: u64) -> u64 {
    match prev {
        None => 0,
        Some(p) => {
            let dt = if total >= p.0 {
                total - p.0
            } else {
                0
            };
            let di = if idle >= p.1 {
                idle - p.1
            } else {
                0
            };
            if dt > 0 {
                if di >= dt {
                    0
                } else {
                    ((dt - di) * 100 / dt) as u64
                }
            } else {
                0
            }
        },
    }
}

/// Memory usage percentage, capped at 100.
pub open spec fn spec_mem_pct(total: u64, used: u64) -> u64 {
    if total > 0 {
        if (used as int) * 100 / (total as int) > 100 {
            100
        } else {
            ((used as int) * 100 / (total as int)) as u64
        }
    } else {
        0
    }
}

/// Transfer rate in bytes per second from two counter readings `dt_ms`
/// milliseconds apart: zero when no time passed or the counter went
/// backwards, saturating at the integer maximum.
pub open spec fn spec_rate_bps(prev: u64, cur: u64, dt_ms: u64) -> u64 {
    if dt_ms > 0 {
        let d: int = if cur >= prev {
            cur - prev
        } else {
            0
        };
        if d * 1000 / (dt_ms as int) > u64::MAX {
            u64::MAX
        } else {
            (d * 1000 / (dt_ms as int)) as u64
        }
    } else {
        0
    }
}

fn cpu_pct(prev: Option<(u64, u64)>, total: u64, idle: u64) -> (r: u64)
    ensures
        r == spec_cpu_pct(prev, total, idle),
{
    match prev {
        None => 0,
        Some(p) => {
            let dt: u64 = if total >= p.0 {
                total - p.0
            } else {
                0
            };
            let di: u64 = if idle >= p.1 {
                idle - p.1
            } else {
                0
            };
            if dt > 0 {
                if di >= dt {
                    0
                } else {
                    (((dt - di) as u128) * 100 / (dt as u128)) as u64
                }
            } else {
                0
            }
        },
    }
}

fn mem_pct(total: u64, used: u64) -> (r: u64)
    ensures
        r == spec_mem_pct(total, used),
{
    if total > 0 {
        let q: u128 = (used as u128) * 100 / (total as u128);
        if q > 100 {
            100
        } else {
            q as u64
        }
    } else {
        0
    }
}

fn rate_bps(prev: u64, cur: u64, dt_ms: u64) -> (r: u64)
    ensures
        r == spec_rate_bps(prev, cur, dt_ms),
{
    if dt_ms > 0 {
        let d: u64 = if cur >= prev {
            cur - prev
        } else {
            0
        };
        let q: u128 = (d as u128) * 1000 / (dt_ms as u128);
        if q > u64::MAX as u128 {
            u64::MAX
        } else {
            q as u64
        }
    } else {
        0
    }
}

/// The per-session prober state: the previous cpu and network readings
/// that the delta computations need.
pub struct StatusTracker {
    pub last_cpu: Option<(u64, u64)>,
    pub last_net: Option<(u64, u64, u64)>,
}

impl StatusTracker {
    /// A tracker before its first sample: both histories empty, so the
    /// first report carries zero cpu usage and zero rates.
    pub fn new() -> (r: Self)
        ensures
            r.last_cpu is None,
            r.last_net is None,
    {
        StatusTracker { last_cpu: None, last_net: None }
    }

    /// Folds one parsed sample into the tracker and produces the status
    /// report for this tick: delta-based cpu usage, memory and disk
    /// percentages, network rates against the previous reading, and the
    /// measured latency.
    pub fn observe(&mut self, sample: StatusSample, latency_ms: u32, now_ms: u64) -> (r:
        ServerStatus)
        requires
            (old(self).last_net matches Some(p) ==> p.2 <= now_ms),
        ensures
            r.cpu_usage == spec_cpu_pct(old(self).last_cpu, sample.cpu_total, sample.cpu_idle),
            r.mem_usage == spec_mem_pct(sample.mem_total, sample.mem_used),
            r.mem_total == sample.mem_total,
            r.mem_used == sample.mem_used,
            r.disk_usage == sample.disk_pct,
            r.net_down == (match old(self).last_net {
                Some(p) => spec_rate_bps(p.0, sample.net_rx, (now_ms - p.2) as u64),
                None => 0u64,
            }),
            r.net_up == (match old(self).last_net {
                Some(p) => spec_rate_bps(p.1, sample.net_tx, (now_ms - p.2) as u64),
                None => 0u64,
            }),
            r.latency == latency_ms,
            final(self).last_cpu == Some((sample.cpu_total, sample.cpu_idle)),
            final(self).last_net == Some((sample.net_rx, sample.net_tx, now_ms)),
    {
        let cpu_usage = cpu_pct(self.last_cpu, sample.cpu_total, sample.cpu_idle);
        let (net_down, net_up): (u64, u64) = match self.last_net {
            Some(p) => {
                let dt = now_ms - p.2;
                (rate_bps(p.0, sample.net_rx, dt), rate_bps(p.1, sample.net_tx, dt))
            },
            None => (0, 0),
        };
        self.last_cpu = Some((sample.cpu_total, sample.cpu_idle));
        self.last_net = Some((sample.net_rx, sample.net_tx, now_ms));
        ServerStatus {
            cpu_usage,
            mem_usage: mem_pct(sample.mem_total, sample.mem_used),
            mem_total: sample.mem_total,
            mem_used: sample.mem_used,
            disk_usage: sample.disk_pct,
            net_up,
            net_down,
            latency: latency_ms,
        }
    }
}

} // verus!
