//! The counters that the statistics sampler reads from a remote host's
//! `/proc` files, and the parser that extracts them from one sample.
use vstd::prelude::*;
use crate::decimal::{parse_decimal, parse_unsigned};
use crate::utils::stats_helpers::{
    compute_cpu_usage, compute_network_and_disk, disk_space_rows, disk_views, gpu_fields,
    mem_fold, parse_cpu_temperatures, parse_disk_space, parse_gpu_stats, parse_memory_stats,
    reading_views, temperature_rows, CpuUsage, DiskSpaceStat, MemoryStats, TemperatureReading,
    TransferDeltas,
};
use crate::text::{
    chars_contains, chars_starts_with, contains, lemma_split_char_two, lines, lines_chars,
    split_char, split_chars, split_str, split_str_chars, starts_with, str_chars, trim, trim_chars,
    views, ws_tokens, ws_tokens_chars, chars_to_string, lemma_split_str_concat, match_at, join, lemma_find,
    is_ws, lemma_ws_tokens_spaced, lemma_ws_tokens_join, lemma_split_char_concat, lemma_split_char_none,
};
use crate::decimal::{decimal, lemma_decimal_digits, lemma_parse_decimal, is_digit};

verus! {

/// The largest `u64`, as a mathematical integer.
pub open spec fn u64_max() -> nat {
    0xffff_ffff_ffff_ffffnat
}

/// The value of a numeric token, or 0 where it is not one
/// (`parse::<u64>().unwrap_or(0)`).
pub open spec fn num_or_zero(t: Seq<char>) -> nat {
    match parse_unsigned(t, u64_max()) {
        Some(v) => v,
        None => 0,
    }
}

/// The value of token `i` of `toks`, or 0 where there is none or it is
/// not a number.
pub open spec fn token_num(toks: Seq<Seq<char>>, i: int) -> nat {
    if 0 <= i < toks.len() {
        num_or_zero(toks[i])
    } else {
        0
    }
}

/// The value of a numeric token, or 0 where it is not one.
pub fn num_or_zero_chars(t: &[char]) -> (r: u64)
    ensures
        r as nat == num_or_zero(t@),
{
    match parse_decimal(t, u64::MAX) {
        Some(v) => v,
        None => 0,
    }
}

// ------------------------------------------------------------------
// CPU counters
// ------------------------------------------------------------------

/// The counters of one CPU line of `/proc/stat`: its name, its idle time
/// (idle + iowait) and its total time (idle time + user + nice + system
/// + irq + softirq), for a line that starts with `cpu` and has at least
/// five tokens.
pub open spec fn cpu_line(line: Seq<char>) -> Option<(Seq<char>, nat, nat)> {
    let toks = ws_tokens(line);
    if starts_with(line, seq!['c', 'p', 'u']) && toks.len() >= 5 {
        let idle_total = token_num(toks, 4) + token_num(toks, 5);
        let non_idle = token_num(toks, 1) + token_num(toks, 2) + token_num(toks, 3) + token_num(
            toks,
            6,
        ) + token_num(toks, 7);
        Some((toks[0], idle_total, idle_total + non_idle))
    } else {
        None
    }
}

/// `table` with the entry `e` stored under its name: the entry of that
/// name replaced where there is one, else `e` appended.
pub open spec fn cpu_insert(table: Seq<(Seq<char>, nat, nat)>, e: (Seq<char>, nat, nat)) -> Seq<
    (Seq<char>, nat, nat),
> {
    if exists|k: int| 0 <= k < table.len() && table[k].0 == e.0 {
        table.update(choose|k: int| 0 <= k < table.len() && table[k].0 == e.0, e)
    } else {
        table.push(e)
    }
}

/// The CPU table of the lines `ls`: one entry per CPU name, the last
/// line of each name deciding its counters.
pub open spec fn cpu_table(ls: Seq<Seq<char>>) -> Seq<(Seq<char>, nat, nat)>
    decreases ls.len(),
{
    if ls.len() == 0 {
        Seq::empty()
    } else {
        let prev = cpu_table(ls.drop_last());
        match cpu_line(ls.last()) {
            Some(e) => cpu_insert(prev, e),
            None => prev,
        }
    }
}

/// Every CPU line of `ls` has a total that fits in a `u64`.
pub open spec fn cpu_fits(ls: Seq<Seq<char>>) -> bool {
    forall|i: int| 0 <= i < ls.len() ==> (#[trigger] cpu_line(ls[i]) matches Some(e) ==> e.2 <= u64_max())
}

/// No two entries of `table` share a name.
pub open spec fn unique_names(table: Seq<(Seq<char>, nat, nat)>) -> bool {
    forall|i: int, j: int| 0 <= i < j < table.len() ==> table[i].0 != table[j].0
}

/// The busy and idle counters of one CPU (or of all of them, for `cpu`).
pub struct CpuTimes {
    pub name: String,
    pub idle: u64,
    pub total: u64,
}

/// The table of CPU counters as mathematical values.
pub open spec fn cpu_view(v: Seq<CpuTimes>) -> Seq<(Seq<char>, nat, nat)> {
    v.map_values(|c: CpuTimes| (c.name@, c.idle as nat, c.total as nat))
}

/// The counters of one line, when it is a CPU line; the idle and total
/// times are given exactly (in `u128`, where they cannot overflow).
fn cpu_line_exec(line: &[char]) -> (r: Option<(Vec<char>, u128, u128)>)
    ensures
        match r {
            Some((n, i, t)) => cpu_line(line@) == Some((n@, i as nat, t as nat)),
            None => cpu_line(line@) is None,
        },
{
    let prefix: Vec<char> = vec!['c', 'p', 'u'];
    assert(prefix@ =~= seq!['c', 'p', 'u']);
    let toks = ws_tokens_chars(line);
    if !chars_starts_with(line, prefix.as_slice()) || toks.len() < 5 {
        return None;
    }
    let mut vals: Vec<u64> = Vec::new();
    let mut i: usize = 0;
    while i < 8
        invariant
            i <= 8,
            toks@.len() >= 5,
            vals@.len() == i,
            forall|k: int| 0 <= k < i ==> vals@[k] as nat == token_num(views(toks@), k),
        decreases 8 - i,
    {
        let v = if i < toks.len() {
            num_or_zero_chars(toks[i].as_slice())
        } else {
            0
        };
        vals.push(v);
        i = i + 1;
    }
    let idle = (vals[4] as u128) + (vals[5] as u128);
    let total = idle + (vals[1] as u128) + (vals[2] as u128) + (vals[3] as u128) + (vals[6] as u128)
        + (vals[7] as u128);
    let name = crate::text::copy_chars(toks[0].as_slice());
    assert(views(toks@)[0] == toks@[0]@);
    Some((name, idle, total))
}

/// Stores `e` under its name in `table`.
fn cpu_insert_exec(table: &mut Vec<CpuTimes>, e: CpuTimes)
    requires
        unique_names(cpu_view(old(table)@)),
    ensures
        unique_names(cpu_view(final(table)@)),
        cpu_view(final(table)@) == cpu_insert(
            cpu_view(old(table)@),
            (e.name@, e.idle as nat, e.total as nat),
        ),
{
    let ghost t = cpu_view(table@);
    let ghost ev = (e.name@, e.idle as nat, e.total as nat);
    let mut k: usize = 0;
    while k < table.len()
        invariant
            k <= table.len(),
            t == cpu_view(table@),
            t == cpu_view(old(table)@),
            ev == (e.name@, e.idle as nat, e.total as nat),
            unique_names(t),
            forall|j: int| 0 <= j < k ==> t[j].0 != ev.0,
        decreases table.len() - k,
    {
        assert(t[k as int].0 == table@[k as int].name@);
        if table[k].name.eq(&e.name) {
            assert(t[k as int].0 == ev.0);
            assert(exists|j: int| 0 <= j < t.len() && t[j].0 == ev.0);
            let ghost c = choose|j: int| 0 <= j < t.len() && t[j].0 == ev.0;
            assert(c == k) by {
                if c != k {
                    if c < k {
                    } else {
                        assert(t[k as int].0 != t[c].0);
                    }
                }
            }
            table.set(k, e);
            assert(cpu_view(table@) =~= t.update(k as int, ev));
            return;
        }
        k = k + 1;
    }
    table.push(e);
    assert(cpu_view(table@) =~= t.push(ev));
}

/// The CPU table of the lines `ls`, or `None` where a total overflows.
fn cpu_table_exec(ls: &Vec<Vec<char>>) -> (r: Option<Vec<CpuTimes>>)
    ensures
        match r {
            Some(t) => cpu_fits(views(ls@)) && cpu_view(t@) == cpu_table(views(ls@)) && unique_names(
                cpu_view(t@),
            ),
            None => !cpu_fits(views(ls@)),
        },
{
    let mut table: Vec<CpuTimes> = Vec::new();
    let mut i: usize = 0;
    assert(cpu_view(table@) =~= Seq::<(Seq<char>, nat, nat)>::empty());
    while i < ls.len()
        invariant
            i <= ls.len(),
            cpu_fits(views(ls@).take(i as int)),
            cpu_view(table@) == cpu_table(views(ls@).take(i as int)),
            unique_names(cpu_view(table@)),
        decreases ls.len() - i,
    {
        let ghost tk = views(ls@).take(i + 1);
        assert(tk.drop_last() =~= views(ls@).take(i as int));
        assert(tk.last() == ls@[i as int]@);
        match cpu_line_exec(ls[i].as_slice()) {
            Some((name, idle, total)) => {
                if total > (u64::MAX as u128) {
                    assert(views(ls@)[i as int] == ls@[i as int]@);
                    assert(!cpu_fits(views(ls@)));
                    return None;
                }
                let e = CpuTimes { name: chars_to_string(name.as_slice()), idle: idle as u64, total: total as u64 };
                cpu_insert_exec(&mut table, e);
            },
            None => {},
        }
        assert forall|j: int| 0 <= j < tk.len() implies (#[trigger] cpu_line(tk[j]) matches Some(e) ==> e.2 <= u64_max()) by {
            if j < i {
                assert(tk[j] == views(ls@).take(i as int)[j]);
            }
        }
        i = i + 1;
    }
    assert(views(ls@).take(ls.len() as int) =~= views(ls@));
    Some(table)
}

// ------------------------------------------------------------------
// Network and disk counters
// ------------------------------------------------------------------

/// The sum of the first components.
pub open spec fn sum_first(s: Seq<(nat, nat)>) -> nat
    decreases s.len(),
{
    if s.len() == 0 {
        0
    } else {
        sum_first(s.drop_last()) + s.last().0
    }
}

/// The sum of the second components.
pub open spec fn sum_second(s: Seq<(nat, nat)>) -> nat
    decreases s.len(),
{
    if s.len() == 0 {
        0
    } else {
        sum_second(s.drop_last()) + s.last().1
    }
}

proof fn lemma_sums_prefix(s: Seq<(nat, nat)>, k: int)
    requires
        0 <= k <= s.len(),
    ensures
        sum_first(s.take(k)) <= sum_first(s),
        sum_second(s.take(k)) <= sum_second(s),
    decreases s.len() - k,
{
    if k < s.len() {
        lemma_sums_prefix(s.drop_last(), k);
        assert(s.drop_last().take(k) =~= s.take(k));
    } else {
        assert(s.take(k) =~= s);
    }
}

/// Whether a `/proc/net/dev` line counts: it holds a `:` and is not the
/// loopback interface's.
pub open spec fn net_applies(line: Seq<char>) -> bool {
    contains(line, seq![':']) && !contains(line, seq!['l', 'o', ':'])
}

/// The received and transmitted bytes of a `/proc/net/dev` line: tokens
/// 0 and 8 after its first `:`, where there are at least nine.
pub open spec fn net_counts(line: Seq<char>) -> (nat, nat) {
    if net_applies(line) {
        let toks = ws_tokens(split_char(line, ':')[1]);
        if toks.len() >= 9 {
            (num_or_zero(toks[0]), num_or_zero(toks[8]))
        } else {
            (0, 0)
        }
    } else {
        (0, 0)
    }
}

/// The name of the first counted interface whose name is not blank.
pub open spec fn net_iface(ls: Seq<Seq<char>>) -> Seq<char>
    decreases ls.len(),
{
    if ls.len() == 0 {
        Seq::empty()
    } else {
        let prev = net_iface(ls.drop_last());
        if prev.len() == 0 && net_applies(ls.last()) {
            trim(split_char(ls.last(), ':')[0])
        } else {
            prev
        }
    }
}

/// The read and written sectors of a `/proc/diskstats` line: tokens 5
/// and 9, for a device (token 2) that is not a loop or RAM device.
pub open spec fn disk_counts(line: Seq<char>) -> (nat, nat) {
    let toks = ws_tokens(line);
    if toks.len() >= 10 && !starts_with(toks[2], seq!['l', 'o', 'o', 'p']) && !starts_with(
        toks[2],
        seq!['r', 'a', 'm'],
    ) {
        (num_or_zero(toks[5]), num_or_zero(toks[9]))
    } else {
        (0, 0)
    }
}

/// The per-line network counters.
pub open spec fn net_rows(ls: Seq<Seq<char>>) -> Seq<(nat, nat)> {
    ls.map_values(|l: Seq<char>| net_counts(l))
}

/// The per-line disk counters.
pub open spec fn disk_rows(ls: Seq<Seq<char>>) -> Seq<(nat, nat)> {
    ls.map_values(|l: Seq<char>| disk_counts(l))
}

fn net_line_exec(line: &[char]) -> (r: (bool, Vec<char>, u64, u64))
    ensures
        r.0 == net_applies(line@),
        r.0 ==> r.1@ == trim(split_char(line@, ':')[0]),
        (r.2 as nat, r.3 as nat) == net_counts(line@),
{
    let colon: Vec<char> = vec![':'];
    let lo: Vec<char> = vec!['l', 'o', ':'];
    assert(colon@ =~= seq![':']);
    assert(lo@ =~= seq!['l', 'o', ':']);
    if !chars_contains(line, colon.as_slice()) || chars_contains(line, lo.as_slice()) {
        return (false, Vec::new(), 0, 0);
    }
    let pieces = split_chars(line, ':');
    proof {
        lemma_split_char_two(line@, ':');
    }
    assert(views(pieces@)[0] == pieces@[0]@);
    assert(views(pieces@)[1] == pieces@[1]@);
    let head = trim_chars(pieces[0].as_slice());
    let toks = ws_tokens_chars(pieces[1].as_slice());
    if toks.len() >= 9 {
        assert(views(toks@)[0] == toks@[0]@);
        assert(views(toks@)[8] == toks@[8]@);
        let rx = num_or_zero_chars(toks[0].as_slice());
        let tx = num_or_zero_chars(toks[8].as_slice());
        (true, head, rx, tx)
    } else {
        (true, head, 0, 0)
    }
}

fn disk_line_exec(line: &[char]) -> (r: (u64, u64))
    ensures
        (r.0 as nat, r.1 as nat) == disk_counts(line@),
{
    let toks = ws_tokens_chars(line);
    if toks.len() < 10 {
        return (0, 0);
    }
    let lp: Vec<char> = vec!['l', 'o', 'o', 'p'];
    let ram: Vec<char> = vec!['r', 'a', 'm'];
    assert(lp@ =~= seq!['l', 'o', 'o', 'p']);
    assert(ram@ =~= seq!['r', 'a', 'm']);
    assert(views(toks@)[2] == toks@[2]@);
    assert(views(toks@)[5] == toks@[5]@);
    assert(views(toks@)[9] == toks@[9]@);
    if chars_starts_with(toks[2].as_slice(), lp.as_slice()) || chars_starts_with(
        toks[2].as_slice(),
        ram.as_slice(),
    ) {
        return (0, 0);
    }
    (num_or_zero_chars(toks[5].as_slice()), num_or_zero_chars(toks[9].as_slice()))
}

/// The summed network counters and the interface name of the lines
/// `ls`, or `None` where a sum overflows.
fn net_exec(ls: &Vec<Vec<char>>) -> (r: Option<(u64, u64, Vec<char>)>)
    ensures
        match r {
            Some((rx, tx, name)) => rx as nat == sum_first(net_rows(views(ls@))) && tx as nat
                == sum_second(net_rows(views(ls@))) && name@ == net_iface(views(ls@)),
            None => sum_first(net_rows(views(ls@))) > u64_max() || sum_second(
                net_rows(views(ls@)),
            ) > u64_max(),
        },
{
    let mut rx: u64 = 0;
    let mut tx: u64 = 0;
    let mut name: Vec<char> = Vec::new();
    let mut i: usize = 0;
    while i < ls.len()
        invariant
            i <= ls.len(),
            rx as nat == sum_first(net_rows(views(ls@).take(i as int))),
            tx as nat == sum_second(net_rows(views(ls@).take(i as int))),
            name@ == net_iface(views(ls@).take(i as int)),
        decreases ls.len() - i,
    {
        let ghost tk = views(ls@).take(i + 1);
        assert(tk.drop_last() =~= views(ls@).take(i as int));
        assert(tk.last() == ls@[i as int]@);
        assert(net_rows(tk).drop_last() =~= net_rows(views(ls@).take(i as int)));
        assert(net_rows(views(ls@)).take(i + 1) =~= net_rows(tk));
        let (applies, head, a, b) = net_line_exec(ls[i].as_slice());
        if applies && name.len() == 0 {
            name = head;
        }
        let na = rx.checked_add(a);
        let nb = tx.checked_add(b);
        if na.is_none() || nb.is_none() {
            proof {
                lemma_sums_prefix(net_rows(views(ls@)), i + 1);
            }
            return None;
        }
        rx = na.unwrap();
        tx = nb.unwrap();
        i = i + 1;
    }
    assert(views(ls@).take(ls.len() as int) =~= views(ls@));
    Some((rx, tx, name))
}

/// The summed disk counters of the lines `ls`, or `None` where a sum
/// overflows.
fn disk_exec(ls: &Vec<Vec<char>>) -> (r: Option<(u64, u64)>)
    ensures
        match r {
            Some((rd, wr)) => rd as nat == sum_first(disk_rows(views(ls@))) && wr as nat
                == sum_second(disk_rows(views(ls@))),
            None => sum_first(disk_rows(views(ls@))) > u64_max() || sum_second(
                disk_rows(views(ls@)),
            ) > u64_max(),
        },
{
    let mut rd: u64 = 0;
    let mut wr: u64 = 0;
    let mut i: usize = 0;
    while i < ls.len()
        invariant
            i <= ls.len(),
            rd as nat == sum_first(disk_rows(views(ls@).take(i as int))),
            wr as nat == sum_second(disk_rows(views(ls@).take(i as int))),
        decreases ls.len() - i,
    {
        let ghost tk = views(ls@).take(i + 1);
        assert(tk.drop_last() =~= views(ls@).take(i as int));
        assert(tk.last() == ls@[i as int]@);
        assert(disk_rows(tk).drop_last() =~= disk_rows(views(ls@).take(i as int)));
        assert(disk_rows(views(ls@)).take(i + 1) =~= disk_rows(tk));
        let (a, b) = disk_line_exec(ls[i].as_slice());
        let na = rd.checked_add(a);
        let nb = wr.checked_add(b);
        if na.is_none() || nb.is_none() {
            proof {
                lemma_sums_prefix(disk_rows(views(ls@)), i + 1);
            }
            return None;
        }
        rd = na.unwrap();
        wr = nb.unwrap();
        i = i + 1;
    }
    assert(views(ls@).take(ls.len() as int) =~= views(ls@));
    Some((rd, wr))
}

// ------------------------------------------------------------------
// One sample
// ------------------------------------------------------------------

/// The counters of one sample of a remote host.
pub struct RawStats {
    pub cpu: Vec<CpuTimes>,
    pub rx_bytes: u64,
    pub tx_bytes: u64,
    pub disk_read_sectors: u64,
    pub disk_write_sectors: u64,
    pub timestamp_ms: u128,
    pub interface_name: String,
}

/// The counters of one sample as mathematical values.
pub struct RawStatsView {
    pub cpu: Seq<(Seq<char>, nat, nat)>,
    pub rx_bytes: nat,
    pub tx_bytes: nat,
    pub disk_read_sectors: nat,
    pub disk_write_sectors: nat,
    pub timestamp_ms: u128,
    pub interface_name: Seq<char>,
}

impl View for RawStats {
    type V = RawStatsView;

    open spec fn view(&self) -> RawStatsView {
        RawStatsView {
            cpu: cpu_view(self.cpu@),
            rx_bytes: self.rx_bytes as nat,
            tx_bytes: self.tx_bytes as nat,
            disk_read_sectors: self.disk_read_sectors as nat,
            disk_write_sectors: self.disk_write_sectors as nat,
            timestamp_ms: self.timestamp_ms,
            interface_name: self.interface_name@,
        }
    }
}

impl Default for RawStats {
    fn default() -> (r: RawStats)
        ensures
            r@ == empty_raw_stats(0),
    {
        let r = RawStats {
            cpu: Vec::new(),
            rx_bytes: 0,
            tx_bytes: 0,
            disk_read_sectors: 0,
            disk_write_sectors: 0,
            timestamp_ms: 0,
            interface_name: String::new(),
        };
        assert(r@.cpu =~= Seq::<(Seq<char>, nat, nat)>::empty());
        r
    }
}

/// A sample with no counters, taken at `ts`.
pub open spec fn empty_raw_stats(ts: u128) -> RawStatsView {
    RawStatsView {
        cpu: Seq::empty(),
        rx_bytes: 0,
        tx_bytes: 0,
        disk_read_sectors: 0,
        disk_write_sectors: 0,
        timestamp_ms: ts,
        interface_name: Seq::empty(),
    }
}

/// The `---` that separates the sections of a sample.
pub open spec fn section_sep() -> Seq<char> {
    seq!['-', '-', '-']
}

/// The sections of a sample's output.
pub open spec fn stats_sections(output: Seq<char>) -> Seq<Seq<char>> {
    split_str(output, section_sep())
}

/// The counters of a sample whose output is `output`, taken at `ts`:
/// CPU times from section 0 (`/proc/stat`), network bytes and the
/// interface from section 2 (`/proc/net/dev`), disk sectors from
/// section 3 (`/proc/diskstats`); none where there are fewer than four
/// sections.
pub open spec fn raw_stats_of(output: Seq<char>, ts: u128) -> RawStatsView {
    let parts = stats_sections(output);
    if parts.len() < 4 {
        empty_raw_stats(ts)
    } else {
        let net = lines(parts[2]);
        let disk = lines(parts[3]);
        RawStatsView {
            cpu: cpu_table(lines(parts[0])),
            rx_bytes: sum_first(net_rows(net)),
            tx_bytes: sum_second(net_rows(net)),
            disk_read_sectors: sum_first(disk_rows(disk)),
            disk_write_sectors: sum_second(disk_rows(disk)),
            timestamp_ms: ts,
            interface_name: net_iface(net),
        }
    }
}

/// Every sum that reading `output` computes fits in a `u64` (where one
/// does not, the computation overflows).
pub open spec fn raw_stats_fit(output: Seq<char>) -> bool {
    let parts = stats_sections(output);
    parts.len() < 4 || {
        let net = lines(parts[2]);
        let disk = lines(parts[3]);
        &&& cpu_fits(lines(parts[0]))
        &&& sum_first(net_rows(net)) <= u64_max()
        &&& sum_second(net_rows(net)) <= u64_max()
        &&& sum_first(disk_rows(disk)) <= u64_max()
        &&& sum_second(disk_rows(disk)) <= u64_max()
    }
}

/// The counters of the sample `output` taken at `ts`, or `None` exactly
/// where one of their sums does not fit in a `u64`.
pub fn try_parse_raw_stats_at(output: &str, ts: u128) -> (r: Option<RawStats>)
    ensures
        match r {
            Some(raw) => raw_stats_fit(output@) && raw@ == raw_stats_of(output@, ts) && unique_names(
                raw@.cpu,
            ),
            None => !raw_stats_fit(output@),
        },
{
    let chars = str_chars(output);
    let sep: Vec<char> = vec!['-', '-', '-'];
    assert(sep@ =~= section_sep());
    let parts = split_str_chars(chars.as_slice(), sep.as_slice());
    if parts.len() < 4 {
        let r = RawStats {
            cpu: Vec::new(),
            rx_bytes: 0,
            tx_bytes: 0,
            disk_read_sectors: 0,
            disk_write_sectors: 0,
            timestamp_ms: ts,
            interface_name: String::new(),
        };
        assert(r@.cpu =~= Seq::<(Seq<char>, nat, nat)>::empty());
        return Some(r);
    }
    assert(views(parts@)[0] == parts@[0]@);
    assert(views(parts@)[2] == parts@[2]@);
    assert(views(parts@)[3] == parts@[3]@);
    let cpu_lines = lines_chars(parts[0].as_slice());
    let net_lines = lines_chars(parts[2].as_slice());
    let disk_lines = lines_chars(parts[3].as_slice());
    let cpu = match cpu_table_exec(&cpu_lines) {
        Some(t) => t,
        None => {
            return None;
        },
    };
    let (rx, tx, iface) = match net_exec(&net_lines) {
        Some(n) => n,
        None => {
            return None;
        },
    };
    let (rd, wr) = match disk_exec(&disk_lines) {
        Some(d) => d,
        None => {
            return None;
        },
    };
    Some(
        RawStats {
            cpu,
            rx_bytes: rx,
            tx_bytes: tx,
            disk_read_sectors: rd,
            disk_write_sectors: wr,
            timestamp_ms: ts,
            interface_name: chars_to_string(iface.as_slice()),
        },
    )
}

/// The counters of the sample `output`, taken at `ts`.
pub fn parse_raw_stats_at(output: &str, ts: u128) -> (r: RawStats)
    requires
        raw_stats_fit(output@),
    ensures
        r@ == raw_stats_of(output@, ts),
        unique_names(r@.cpu),
{
    match try_parse_raw_stats_at(output, ts) {
        Some(r) => r,
        None => {
            assert(false);
            RawStats {
                cpu: Vec::new(),
                rx_bytes: 0,
                tx_bytes: 0,
                disk_read_sectors: 0,
                disk_write_sectors: 0,
                timestamp_ms: ts,
                interface_name: String::new(),
            }
        },
    }
}

/// Milliseconds since the Unix epoch, read from the system clock
/// (`SystemTime::now().duration_since(UNIX_EPOCH)`, then `as_millis`), or
/// `None` where the clock stands before the epoch (the `Err` of
/// `duration_since`). Nothing is stated of the value: it is the machine's
/// time.
#[verifier::external_body]
fn now_millis() -> Option<u128> {
    std::time::SystemTime::now().duration_since(std::time::UNIX_EPOCH).ok().map(|d| d.as_millis())
}

/// The counters of the sample `output`, stamped with the current time, or
/// `None` where the system clock cannot give a time after the Unix epoch.
pub fn parse_raw_stats(output: &str) -> (r: Option<RawStats>)
    requires
        raw_stats_fit(output@),
    ensures
        match r {
            Some(raw) => raw@ == raw_stats_of(output@, raw@.timestamp_ms) && unique_names(raw@.cpu),
            None => true,
        },
{
    match now_millis() {
        Some(ts) => Some(parse_raw_stats_at(output, ts)),
        None => None,
    }
}

// ------------------------------------------------------------------
// What a pair of samples shows
// ------------------------------------------------------------------

/// The AC server's state lines: status, TCP port and HTTP port.
pub struct ServerInfoView {
    pub status: Seq<char>,
    pub tcp_port: Seq<char>,
    pub http_port: Seq<char>,
}

/// The value after `key` on a state line, trimmed.
pub open spec fn info_value(line: Seq<char>, key: Seq<char>) -> Seq<char> {
    trim(crate::text::strip_prefixes(line, key))
}

/// The state after reading one state line.
pub open spec fn info_step(st: ServerInfoView, line: Seq<char>) -> ServerInfoView {
    if starts_with(line, "STATUS:"@) {
        ServerInfoView { status: info_value(line, "STATUS:"@), ..st }
    } else if starts_with(line, "TCP_PORT:"@) {
        ServerInfoView { tcp_port: info_value(line, "TCP_PORT:"@), ..st }
    } else if starts_with(line, "HTTP_PORT:"@) {
        ServerInfoView { http_port: info_value(line, "HTTP_PORT:"@), ..st }
    } else {
        st
    }
}

/// The state after reading the lines `ls` in order, from empty values.
pub open spec fn info_fold(ls: Seq<Seq<char>>) -> ServerInfoView
    decreases ls.len(),
{
    if ls.len() == 0 {
        ServerInfoView { status: Seq::empty(), tcp_port: Seq::empty(), http_port: Seq::empty() }
    } else {
        info_step(info_fold(ls.drop_last()), ls.last())
    }
}

/// Memory figures that no line has set.
pub open spec fn zero_memory() -> MemoryStats {
    MemoryStats {
        ram_used_mb: 0,
        ram_total_mb: 0,
        ram_usage: None,
        swap_used_mb: 0,
        swap_total_mb: 0,
        swap_usage: None,
    }
}

/// What the dashboard shows of a host from two samples, before the
/// rates and percentages are worked out from it.
pub struct HostReadings {
    pub memory: MemoryStats,
    pub temperatures: Vec<TemperatureReading>,
    pub cpu: CpuUsage,
    pub transfer: TransferDeltas,
    pub elapsed_ms: u128,
    pub gpu: Option<(String, String)>,
    pub disks: Vec<DiskSpaceStat>,
    pub ipv4: String,
    pub ipv6: String,
    pub players_json: Option<String>,
    pub ac_server_status: String,
    pub ac_tcp_port: String,
    pub ac_http_port: String,
}

fn info_value_exec(line: &[char], key: &str) -> (r: Vec<char>)
    ensures
        r@ == info_value(line@, key@),
{
    let k = str_chars(key);
    let stripped = crate::text::strip_prefixes_chars(line, k.as_slice());
    trim_chars(stripped.as_slice())
}

/// The AC server's state lines of `part`.
fn server_info(part: &[char]) -> (r: (String, String, String))
    ensures
        r.0@ == info_fold(lines(part@)).status,
        r.1@ == info_fold(lines(part@)).tcp_port,
        r.2@ == info_fold(lines(part@)).http_port,
{
    let ls = lines_chars(part);
    let mut status: Vec<char> = Vec::new();
    let mut tcp: Vec<char> = Vec::new();
    let mut http: Vec<char> = Vec::new();
    let mut i: usize = 0;
    while i < ls.len()
        invariant
            i <= ls.len(),
            status@ == info_fold(views(ls@).take(i as int)).status,
            tcp@ == info_fold(views(ls@).take(i as int)).tcp_port,
            http@ == info_fold(views(ls@).take(i as int)).http_port,
        decreases ls.len() - i,
    {
        let ghost tk = views(ls@).take(i + 1);
        assert(tk.drop_last() =~= views(ls@).take(i as int));
        assert(tk.last() == ls@[i as int]@);
        let line = ls[i].as_slice();
        if chars_starts_with(line, str_chars("STATUS:").as_slice()) {
            status = info_value_exec(line, "STATUS:");
        } else if chars_starts_with(line, str_chars("TCP_PORT:").as_slice()) {
            tcp = info_value_exec(line, "TCP_PORT:");
        } else if chars_starts_with(line, str_chars("HTTP_PORT:").as_slice()) {
            http = info_value_exec(line, "HTTP_PORT:");
        }
        i = i + 1;
    }
    assert(views(ls@).take(ls.len() as int) =~= views(ls@));
    (
        chars_to_string(status.as_slice()),
        chars_to_string(tcp.as_slice()),
        chars_to_string(http.as_slice()),
    )
}

/// What `compute_host_stats` gives for the samples `prev` and `current`,
/// with `output` the text of `current`.
pub open spec fn host_readings_are(r: HostReadings, prev: RawStatsView, current: RawStatsView, output: Seq<char>) -> bool {
    &&& ({
        let parts = stats_sections(output);
        &&& r.memory == (if parts.len() >= 2 {
            mem_fold(zero_memory(), lines(parts[1]))
        } else {
            zero_memory()
        })
        &&& reading_views(r.temperatures@) == (if parts.len() >= 9 {
            temperature_rows(lines(parts[8]))
        } else {
            Seq::empty()
        })
        &&& r.elapsed_ms == (if current.timestamp_ms >= prev.timestamp_ms {
            (current.timestamp_ms - prev.timestamp_ms) as u128
        } else {
            0
        })
        &&& (match r.gpu {
            Some((u, t)) => parts.len() >= 5 && gpu_fields(parts[4]) == Some((u@, t@)),
            None => parts.len() < 5 || gpu_fields(parts[4]) is None,
        })
        &&& disk_views(r.disks@) == (if parts.len() >= 6 {
            disk_space_rows(lines(parts[5]))
        } else {
            Seq::empty()
        })
        &&& r.ipv4@ == (if parts.len() >= 7 {
            trim(parts[6])
        } else {
            Seq::empty()
        })
        &&& r.ipv6@ == (if parts.len() >= 8 {
            trim(parts[7])
        } else {
            Seq::empty()
        })
        &&& (match r.players_json {
            Some(j) => parts.len() >= 10 && j@ == trim(parts[9]) && j@.len() > 0,
            None => parts.len() < 10 || trim(parts[9]).len() == 0,
        })
        &&& r.ac_server_status@ == (if parts.len() >= 11 {
            info_fold(lines(parts[10])).status
        } else {
            Seq::empty()
        })
        &&& r.ac_tcp_port@ == (if parts.len() >= 11 {
            info_fold(lines(parts[10])).tcp_port
        } else {
            Seq::empty()
        })
        &&& r.ac_http_port@ == (if parts.len() >= 11 {
            info_fold(lines(parts[10])).http_port
        } else {
            Seq::empty()
        })
    })
    &&& r.cpu.total == (match crate::utils::stats_helpers::total_delta(
        crate::utils::stats_helpers::cpu_deltas(prev.cpu, current.cpu),
    ) {
        Some((t, i)) => Some((t as u64, i as u64)),
        None => None,
    })
    &&& crate::utils::stats_helpers::sorted_by_name(
        crate::utils::stats_helpers::delta_views(r.cpu.cores@),
        crate::utils::stats_helpers::core_deltas(
            crate::utils::stats_helpers::cpu_deltas(prev.cpu, current.cpu),
        ),
    )
    &&& r.transfer.rx_bytes == crate::utils::stats_helpers::sat_sub(
        current.rx_bytes,
        prev.rx_bytes,
    )
    &&& r.transfer.tx_bytes == crate::utils::stats_helpers::sat_sub(
        current.tx_bytes,
        prev.tx_bytes,
    )
    &&& r.transfer.read_sectors == crate::utils::stats_helpers::sat_sub(
        current.disk_read_sectors,
        prev.disk_read_sectors,
    )
    &&& r.transfer.write_sectors == crate::utils::stats_helpers::sat_sub(
        current.disk_write_sectors,
        prev.disk_write_sectors,
    )
    &&& r.transfer.interface_name@ == current.interface_name
}

/// What the samples `prev` and `current` show, with `output` the text of
/// `current`: the memory figures (section 1), the temperatures (section
/// 8), the CPU, network and disk activity between the samples and the
/// time between them, the GPU (section 4), the disks (section 5), the
/// addresses (sections 6 and 7), the players' report (section 9, where
/// not blank) and the AC server's state (section 10). A section that the
/// output lacks leaves its figures empty.
pub fn compute_host_stats(prev: &RawStats, current: &RawStats, output: &str) -> (r: HostReadings)
    requires
        unique_names(prev@.cpu),
    ensures
        host_readings_are(r, prev@, current@, output@),
{
    let chars = str_chars(output);
    let sep: Vec<char> = vec!['-', '-', '-'];
    assert(sep@ =~= section_sep());
    let parts = split_str_chars(chars.as_slice(), sep.as_slice());
    let ghost ps = views(parts@);
    let n = parts.len();
    let mut memory = MemoryStats {
        ram_used_mb: 0,
        ram_total_mb: 0,
        ram_usage: None,
        swap_used_mb: 0,
        swap_total_mb: 0,
        swap_usage: None,
    };
    if n >= 2 {
        assert(ps[1] == parts@[1]@);
        let text = chars_to_string(parts[1].as_slice());
        parse_memory_stats(&mut memory, text.as_str());
    }
    let temperatures = if n >= 9 {
        assert(ps[8] == parts@[8]@);
        let text = chars_to_string(parts[8].as_slice());
        parse_cpu_temperatures(text.as_str())
    } else {
        let v: Vec<TemperatureReading> = Vec::new();
        assert(reading_views(v@) =~= Seq::<(Seq<char>, Seq<char>)>::empty());
        v
    };
    let elapsed_ms = current.timestamp_ms.saturating_sub(prev.timestamp_ms);
    let cpu = compute_cpu_usage(prev, current);
    let transfer = compute_network_and_disk(prev, current);
    let gpu = if n >= 5 {
        assert(ps[4] == parts@[4]@);
        let text = chars_to_string(parts[4].as_slice());
        parse_gpu_stats(text.as_str())
    } else {
        None
    };
    let mut disks: Vec<DiskSpaceStat> = Vec::new();
    assert(disk_views(disks@) =~= Seq::<(Seq<char>, nat, nat)>::empty());
    if n >= 6 {
        assert(ps[5] == parts@[5]@);
        let text = chars_to_string(parts[5].as_slice());
        parse_disk_space(&mut disks, text.as_str());
        assert(disk_views(disks@) =~= disk_space_rows(lines(ps[5])));
    }
    let ipv4 = if n >= 7 {
        assert(ps[6] == parts@[6]@);
        chars_to_string(trim_chars(parts[6].as_slice()).as_slice())
    } else {
        String::new()
    };
    let ipv6 = if n >= 8 {
        assert(ps[7] == parts@[7]@);
        chars_to_string(trim_chars(parts[7].as_slice()).as_slice())
    } else {
        String::new()
    };
    let players_json = if n >= 10 {
        assert(ps[9] == parts@[9]@);
        let t = trim_chars(parts[9].as_slice());
        if t.len() > 0 {
            Some(chars_to_string(t.as_slice()))
        } else {
            None
        }
    } else {
        None
    };
    let (status, tcp, http) = if n >= 11 {
        assert(ps[10] == parts@[10]@);
        server_info(parts[10].as_slice())
    } else {
        (String::new(), String::new(), String::new())
    };
    HostReadings {
        memory,
        temperatures,
        cpu,
        transfer,
        elapsed_ms,
        gpu,
        disks,
        ipv4,
        ipv6,
        players_json,
        ac_server_status: status,
        ac_tcp_port: tcp,
        ac_http_port: http,
    }
}

/// Sections after the fourth are ignored: appending `---` and any text to
/// a sample that has the four sections read and does not end with `-`
/// changes neither its counters nor whether they fit.
pub proof fn lemma_raw_stats_ignore_later_sections(output: Seq<char>, extra: Seq<char>, ts: u128)
    requires
        stats_sections(output).len() >= 4,
        !(output.len() > 0 && output.last() == '-'),
    ensures
        raw_stats_of(output + section_sep() + extra, ts) == raw_stats_of(output, ts),
        raw_stats_fit(output + section_sep() + extra) == raw_stats_fit(output),
{
    let p = section_sep();
    let x = output + p + extra;
    assert forall|j: int| 0 <= j < output.len() < j + p.len() implies !match_at(x, p, j) by {
        let k = output.len() - 1 - j;
        if match_at(x, p, j) {
            assert(x.subrange(j, j + p.len())[k] == x[output.len() - 1]);
            assert(x[output.len() - 1] == output.last());
        }
    }
    lemma_split_str_concat(output, extra, p);
    let a = stats_sections(output);
    let b = stats_sections(x);
    assert(b == a + split_str(extra, p));
    assert(b[0] == a[0] && b[2] == a[2] && b[3] == a[3]);
}

/// Between two samples, each counter's activity is how much it grew: the
/// later count is the earlier one plus the activity, and where a counter
/// went back (the host restarted) the activity is 0; the time between
/// the samples is measured the same way.
pub proof fn lemma_transfer_is_growth(r: HostReadings, prev: RawStatsView, current: RawStatsView, output: Seq<char>)
    requires
        host_readings_are(r, prev, current, output),
    ensures
        current.rx_bytes >= prev.rx_bytes ==> prev.rx_bytes + r.transfer.rx_bytes == current.rx_bytes,
        current.rx_bytes < prev.rx_bytes ==> r.transfer.rx_bytes == 0,
        current.tx_bytes >= prev.tx_bytes ==> prev.tx_bytes + r.transfer.tx_bytes == current.tx_bytes,
        current.tx_bytes < prev.tx_bytes ==> r.transfer.tx_bytes == 0,
        current.disk_read_sectors >= prev.disk_read_sectors ==> prev.disk_read_sectors
            + r.transfer.read_sectors == current.disk_read_sectors,
        current.disk_read_sectors < prev.disk_read_sectors ==> r.transfer.read_sectors == 0,
        current.disk_write_sectors >= prev.disk_write_sectors ==> prev.disk_write_sectors
            + r.transfer.write_sectors == current.disk_write_sectors,
        current.disk_write_sectors < prev.disk_write_sectors ==> r.transfer.write_sectors == 0,
        current.timestamp_ms >= prev.timestamp_ms ==> prev.timestamp_ms + r.elapsed_ms == current.timestamp_ms,
        current.timestamp_ms < prev.timestamp_ms ==> r.elapsed_ms == 0,
        r.transfer.interface_name@ == current.interface_name,
{
}

/// A section text that the sampler can frame: not empty, without `---`,
/// and not ending with `-`.
pub open spec fn plain_section(t: Seq<char>) -> bool {
    &&& t.len() > 0
    &&& !contains(t, section_sep())
    &&& t.last() != '-'
}

/// Texts joined by `---` are read back as the same sections, where no
/// text holds `---`, is empty, or ends with `-`.
pub proof fn lemma_sections_of_join(ps: Seq<Seq<char>>)
    requires
        ps.len() >= 1,
        forall|i: int| 0 <= i < ps.len() ==> plain_section(#[trigger] ps[i]),
    ensures
        stats_sections(join(ps, section_sep())) == ps,
    decreases ps.len(),
{
    let p = section_sep();
    if ps.len() == 1 {
        assert(plain_section(ps[0]));
        lemma_find(ps[0], p);
        assert(split_str(ps[0], p) == seq![ps[0]]);
        assert(seq![ps[0]] =~= ps);
    } else {
        let front = ps.drop_last();
        assert forall|i: int| 0 <= i < front.len() implies plain_section(#[trigger] front[i]) by {
            assert(front[i] == ps[i]);
        }
        lemma_sections_of_join(front);
        let a = join(front, p);
        let t = ps.last();
        assert(plain_section(ps[ps.len() - 1]));
        assert(plain_section(ps[ps.len() - 2]));
        assert(front.last() == ps[ps.len() - 2]);
        if front.len() == 1 {
            assert(a == front[0]);
        } else {
            assert(a == join(front.drop_last(), p) + p + front.last());
        }
        assert(a.len() > 0 && a.last() == front.last().last());
        assert forall|j: int| 0 <= j < a.len() < j + p.len() implies !match_at(a + p + t, p, j) by {
            let k = a.len() - 1 - j;
            if match_at(a + p + t, p, j) {
                assert((a + p + t).subrange(j, j + p.len())[k] == (a + p + t)[a.len() - 1]);
            }
        }
        lemma_split_str_concat(a, t, p);
        lemma_find(t, p);
        assert(split_str(t, p) == seq![t]);
        assert(front + seq![t] =~= ps);
    }
}

/// A `/proc/stat` CPU line: the name, then the user, nice, system, idle,
/// iowait, irq and softirq times `f`, separated by single spaces.
pub open spec fn proc_stat_line(name: Seq<char>, f: Seq<nat>) -> Seq<char> {
    join(seq![name] + f.map_values(|n: nat| decimal(n)), seq![' '])
}

/// A CPU line counts as idle time its idle and iowait times, and as total
/// time those and its user, nice, system, irq and softirq times.
pub proof fn lemma_cpu_line_counts(name: Seq<char>, f: Seq<nat>)
    requires
        starts_with(name, seq!['c', 'p', 'u']),
        forall|i: int| 0 <= i < name.len() ==> !is_ws(#[trigger] name[i]),
        f.len() == 7,
        forall|i: int| 0 <= i < 7 ==> #[trigger] f[i] <= u64_max(),
    ensures
        cpu_line(proc_stat_line(name, f)) == Some((name, f[3] + f[4], f[0] + f[1] + f[2] + f[3] + f[4] + f[5] + f[6])),
{
    let ws = seq![name] + f.map_values(|n: nat| decimal(n));
    assert forall|i: int| 0 <= i < ws.len() implies (#[trigger] ws[i]).len() > 0 by {
        if i > 0 {
            assert(ws[i] == decimal(f[i - 1]));
            lemma_decimal_digits(f[i - 1]);
        }
    }
    assert forall|i: int, j: int| 0 <= i < ws.len() && 0 <= j < ws[i].len() implies !is_ws(#[trigger] ws[i][j]) by {
        if i > 0 {
            assert(ws[i] == decimal(f[i - 1]));
            lemma_decimal_digits(f[i - 1]);
            assert(is_digit(ws[i][j]));
        }
    }
    lemma_ws_tokens_spaced(ws);
    let line = proc_stat_line(name, f);
    let toks = ws_tokens(line);
    assert(toks == ws);
    assert forall|i: int| 1 <= i < 8 implies token_num(toks, i) == f[i - 1] by {
        assert(toks[i] == decimal(f[i - 1]));
        lemma_parse_decimal(f[i - 1], u64_max());
    }
    assert(line.take(3) =~= name.take(3)) by {
        assert(line.take(name.len() as int) == name);
    }
    assert(token_num(toks, 1) == f[0] && token_num(toks, 2) == f[1] && token_num(toks, 3) == f[2]
        && token_num(toks, 4) == f[3] && token_num(toks, 5) == f[4] && token_num(toks, 6) == f[5]
        && token_num(toks, 7) == f[6]);
}

/// A `/proc/diskstats` line: major and minor numbers, the device name,
/// then its counters `f`, separated by single spaces.
pub open spec fn diskstats_line(major: nat, minor: nat, dev: Seq<char>, f: Seq<nat>) -> Seq<char> {
    join(seq![decimal(major), decimal(minor), dev] + f.map_values(|n: nat| decimal(n)), seq![' '])
}

/// A disk line counts its sectors read (its third counter) and written
/// (its seventh), unless the device is a loop or RAM device.
pub proof fn lemma_diskstats_line_counts(major: nat, minor: nat, dev: Seq<char>, f: Seq<nat>)
    requires
        dev.len() > 0,
        forall|i: int| 0 <= i < dev.len() ==> !is_ws(#[trigger] dev[i]),
        major <= u64_max(),
        minor <= u64_max(),
        f.len() >= 7,
        forall|i: int| 0 <= i < f.len() ==> #[trigger] f[i] <= u64_max(),
    ensures
        disk_counts(diskstats_line(major, minor, dev, f)) == (if starts_with(dev, seq!['l', 'o', 'o', 'p'])
            || starts_with(dev, seq!['r', 'a', 'm']) {
            (0nat, 0nat)
        } else {
            (f[2], f[6])
        }),
{
    let head = seq![decimal(major), decimal(minor), dev];
    let ws = head + f.map_values(|n: nat| decimal(n));
    lemma_decimal_digits(major);
    lemma_decimal_digits(minor);
    assert forall|i: int| 0 <= i < ws.len() implies (#[trigger] ws[i]).len() > 0 by {
        if i >= 3 {
            assert(ws[i] == decimal(f[i - 3]));
            lemma_decimal_digits(f[i - 3]);
        }
    }
    assert forall|i: int, j: int| 0 <= i < ws.len() && 0 <= j < ws[i].len() implies !is_ws(#[trigger] ws[i][j]) by {
        if i == 0 {
            assert(is_digit(ws[i][j]));
        } else if i == 1 {
            assert(is_digit(ws[i][j]));
        } else if i >= 3 {
            assert(ws[i] == decimal(f[i - 3]));
            lemma_decimal_digits(f[i - 3]);
            assert(is_digit(ws[i][j]));
        }
    }
    lemma_ws_tokens_spaced(ws);
    let toks = ws_tokens(diskstats_line(major, minor, dev, f));
    assert(toks == ws);
    assert(toks[2] == dev);
    assert(toks[5] == decimal(f[2]));
    assert(toks[9] == decimal(f[6]));
    lemma_parse_decimal(f[2], u64_max());
    lemma_parse_decimal(f[6], u64_max());
}

/// A `/proc/net/dev` line: the interface `name`, a colon, then its
/// counters `f`, each after a single space.
pub open spec fn net_dev_line(name: Seq<char>, f: Seq<nat>) -> Seq<char> {
    name + seq![':', ' '] + join(f.map_values(|n: nat| decimal(n)), seq![' '])
}

/// An interface line counts its received bytes (its first counter) and
/// its transmitted bytes (its ninth), unless the interface is the
/// loopback one (a name ending in `lo`).
pub proof fn lemma_net_line_counts(name: Seq<char>, f: Seq<nat>)
    requires
        forall|i: int| 0 <= i < name.len() ==> name[i] != ':',
        f.len() >= 9,
        forall|i: int| 0 <= i < f.len() ==> #[trigger] f[i] <= u64_max(),
    ensures
        net_counts(net_dev_line(name, f)) == (if name.len() >= 2 && name.subrange(name.len() - 2, name.len() as int)
            == seq!['l', 'o'] {
            (0nat, 0nat)
        } else {
            (f[0], f[8])
        }),
{
    let nums = f.map_values(|n: nat| decimal(n));
    let rest = join(nums, seq![' ']);
    let line = net_dev_line(name, f);
    // the tokens after the colon
    assert forall|i: int| 0 <= i < nums.len() implies (#[trigger] nums[i]).len() > 0 by {
        lemma_decimal_digits(f[i]);
    }
    assert forall|i: int, j: int| 0 <= i < nums.len() && 0 <= j < nums[i].len() implies !is_ws(#[trigger] nums[i][j])
        && nums[i][j] != ':' by {
        lemma_decimal_digits(f[i]);
        assert(is_digit(nums[i][j]));
    }
    lemma_ws_tokens_spaced(nums);
    lemma_join_spaced_chars(nums);
    let after = seq![' '] + rest;
    assert forall|i: int| 0 <= i < after.len() implies after[i] != ':' by {
        if i > 0 {
            assert(after[i] == rest[i - 1]);
        }
    }
    lemma_split_char_none(name, ':');
    lemma_split_char_none(after, ':');
    lemma_split_char_concat(name, after, ':');
    assert(name.push(':') + after =~= line);
    assert(split_char(line, ':')[1] == after);
    lemma_ws_tokens_join(Seq::<char>::empty(), rest);
    assert(Seq::<char>::empty() + seq![' '] + rest =~= after);
    assert(ws_tokens(Seq::<char>::empty()) =~= Seq::<Seq<char>>::empty());
    assert(ws_tokens(after) =~= nums);
    lemma_parse_decimal(f[0], u64_max());
    lemma_parse_decimal(f[8], u64_max());
    // the colon, and where `lo:` can stand
    assert(match_at(line, seq![':'], name.len() as int)) by {
        assert(line.subrange(name.len() as int, name.len() + 1int) =~= seq![':']);
    }
    let lo = seq!['l', 'o', ':'];
    if name.len() >= 2 && name.subrange(name.len() - 2, name.len() as int) == seq!['l', 'o'] {
        assert(line.subrange(name.len() - 2, name.len() + 1int) =~= lo);
        assert(match_at(line, lo, name.len() - 2));
    } else {
        assert forall|j: int| !match_at(line, lo, j) by {
            if match_at(line, lo, j) {
                assert(line.subrange(j, j + 3)[2] == line[j + 2]);
                assert(line[j + 2] == ':');
                if j + 2 < name.len() {
                    assert(line[j + 2] == name[j + 2]);
                } else if j + 2 > name.len() {
                    assert(line[j + 2] == after[j + 2 - name.len() - 1]);
                } else {
                    assert(line.subrange(j, j + 2) =~= name.subrange(name.len() - 2, name.len() as int));
                    assert(line.subrange(j, j + 2) =~= seq!['l', 'o']);
                }
            }
        }
    }
}

proof fn lemma_join_spaced_chars(ws: Seq<Seq<char>>)
    requires
        forall|i: int, j: int| 0 <= i < ws.len() && 0 <= j < ws[i].len() ==> (#[trigger] ws[i][j]) != ':',
    ensures
        forall|k: int| 0 <= k < join(ws, seq![' ']).len() ==> join(ws, seq![' '])[k] != ':',
    decreases ws.len(),
{
    if ws.len() == 1 {
        assert forall|k: int| 0 <= k < ws[0].len() implies ws[0][k] != ':' by {}
    } else if ws.len() > 1 {
        let front = ws.drop_last();
        assert forall|i: int, j: int| 0 <= i < front.len() && 0 <= j < front[i].len() implies (#[trigger] front[i][j])
            != ':' by {
            assert(front[i] == ws[i]);
        }
        lemma_join_spaced_chars(front);
        let a = join(front, seq![' ']);
        let l = ws.last();
        assert(l == ws[ws.len() - 1]);
        assert forall|k: int| 0 <= k < (a + seq![' '] + l).len() implies (a + seq![' '] + l)[k] != ':' by {
            if k > a.len() {
                assert((a + seq![' '] + l)[k] == l[k - a.len() - 1]);
            }
        }
    }
}

} // verus!
