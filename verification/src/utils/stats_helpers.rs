//! The parsers of the sections of a host sample that the dashboard shows:
//! memory, temperatures, GPU, disk space, players, and the differences of
//! counters between two samples.
use vstd::prelude::*;
use crate::net::stats::{
    cpu_view, num_or_zero, num_or_zero_chars, token_num, unique_names, CpuTimes, RawStats,
};
use crate::order::{sorted_order, stably_sorted};
use crate::decimal::{decimal, lemma_decimal_digits, lemma_parse_decimal};
use crate::text::{
    is_ws, lemma_lines_two, lemma_trim_drop_last_ws, lemma_split_char_concat, lemma_split_char_none,
    trim_start, trim_end, lemma_ws_tokens_join, lemma_ws_tokens_word, strip_cr, join, lemma_ws_tokens_spaced,
    chars_contains, chars_starts_with, chars_to_string, contains, lines, lines_chars, split_char,
    split_chars, starts_with, str_chars, trim, trim_chars, views, ws_tokens, ws_tokens_chars,
};

verus! {

/// `a - b`, or 0 where `b` is greater (`saturating_sub`).
pub open spec fn sat_sub(a: nat, b: nat) -> nat {
    if a >= b {
        (a - b) as nat
    } else {
        0
    }
}

// ------------------------------------------------------------------
// Memory
// ------------------------------------------------------------------

/// The memory figures of a host, in MiB. A usage pair `(used, total)`
/// is the pair from which the usage percentage was last computed; `None`
/// where it was not.
pub struct MemoryStats {
    pub ram_used_mb: u64,
    pub ram_total_mb: u64,
    pub ram_usage: Option<(u64, u64)>,
    pub swap_used_mb: u64,
    pub swap_total_mb: u64,
    pub swap_usage: Option<(u64, u64)>,
}

/// The second token of `line` in KiB, as MiB.
pub open spec fn mib_field(line: Seq<char>) -> nat {
    token_num(ws_tokens(line), 1) / 1024
}

/// The figures after reading one `/proc/meminfo` line.
pub open spec fn mem_step(st: MemoryStats, line: Seq<char>) -> MemoryStats {
    let v = mib_field(line);
    if starts_with(line, "MemTotal:"@) {
        MemoryStats { ram_total_mb: v as u64, ..st }
    } else if starts_with(line, "MemAvailable:"@) || starts_with(line, "MemFree:"@) {
        if st.ram_total_mb > 0 {
            let used = sat_sub(st.ram_total_mb as nat, v) as u64;
            MemoryStats { ram_used_mb: used, ram_usage: Some((used, st.ram_total_mb)), ..st }
        } else {
            st
        }
    } else if starts_with(line, "SwapTotal:"@) {
        MemoryStats { swap_total_mb: v as u64, ..st }
    } else if starts_with(line, "SwapFree:"@) {
        if st.swap_total_mb > 0 {
            let used = sat_sub(st.swap_total_mb as nat, v) as u64;
            MemoryStats { swap_used_mb: used, swap_usage: Some((used, st.swap_total_mb)), ..st }
        } else {
            st
        }
    } else {
        st
    }
}

/// The figures after reading the lines `ls`, in order, from `st`.
pub open spec fn mem_fold(st: MemoryStats, ls: Seq<Seq<char>>) -> MemoryStats
    decreases ls.len(),
{
    if ls.len() == 0 {
        st
    } else {
        mem_step(mem_fold(st, ls.drop_last()), ls.last())
    }
}

/// A `/proc/meminfo` line: `key`, the numeral of `kib`, and `kB`,
/// separated by single spaces.
pub open spec fn meminfo_line(key: Seq<char>, kib: nat) -> Seq<char> {
    key + seq![' '] + decimal(kib) + seq![' '] + "kB"@
}

proof fn lemma_meminfo_line(key: Seq<char>, kib: nat)
    requires
        key.len() > 0,
        forall|i: int| 0 <= i < key.len() ==> !is_ws(key[i]),
        kib <= crate::net::stats::u64_max(),
    ensures
        mib_field(meminfo_line(key, kib)) == kib / 1024,
        starts_with(meminfo_line(key, kib), key),
        forall|i: int| 0 <= i < meminfo_line(key, kib).len() ==> meminfo_line(key, kib)[i] != '\n',
        strip_cr(meminfo_line(key, kib)) == meminfo_line(key, kib),
{
    reveal_strlit("kB");
    let d = decimal(kib);
    let kb = "kB"@;
    lemma_decimal_digits(kib);
    lemma_parse_decimal(kib, crate::net::stats::u64_max());
    assert forall|i: int| 0 <= i < d.len() implies !is_ws(d[i]) && d[i] != '\n' by {
        assert(crate::decimal::is_digit(d[i]));
    }
    assert(!is_ws('k') && !is_ws('B'));
    lemma_ws_tokens_word(key);
    lemma_ws_tokens_word(d);
    lemma_ws_tokens_word(kb);
    lemma_ws_tokens_join(key, d);
    lemma_ws_tokens_join(key + seq![' '] + d, kb);
    let line = meminfo_line(key, kib);
    assert(ws_tokens(line) =~= seq![key, d, kb]);
    assert(line.take(key.len() as int) =~= key);
    assert(is_ws('\n'));
    assert forall|i: int| 0 <= i < line.len() implies line[i] != '\n' by {
        if i < key.len() {
            assert(line[i] == key[i]);
        } else if key.len() < i < key.len() + 1 + d.len() {
            assert(line[i] == d[i - key.len() - 1]);
        }
    }
    assert(line.last() == 'B');
}

/// RAM: after a `MemTotal` line of `total_kib` KiB and then a
/// `MemAvailable` (or `MemFree`) line of `avail_kib` KiB, from any
/// figures before, the total is `total_kib / 1024` MiB; where that total
/// is not 0, the used figure is the total less `avail_kib / 1024` (0
/// where the available memory is more) and the usage pair is (used,
/// total), and where it is 0 they are left as they were; the swap figures
/// are left as they were.
pub proof fn lemma_ram_used_is_total_less_available(
    st: MemoryStats,
    avail_key: Seq<char>,
    total_kib: nat,
    avail_kib: nat,
)
    requires
        avail_key == "MemAvailable:"@ || avail_key == "MemFree:"@,
        total_kib <= crate::net::stats::u64_max(),
        avail_kib <= crate::net::stats::u64_max(),
    ensures
        ({
            let r = mem_fold(
                st,
                lines(meminfo_line("MemTotal:"@, total_kib) + seq!['\n'] + meminfo_line(avail_key, avail_kib) + seq!['\n']),
            );
            &&& r.ram_total_mb == total_kib / 1024
            &&& total_kib / 1024 > 0 ==> {
                &&& avail_kib / 1024 <= total_kib / 1024 ==> r.ram_used_mb + avail_kib / 1024 == r.ram_total_mb
                &&& avail_kib / 1024 > total_kib / 1024 ==> r.ram_used_mb == 0
                &&& r.ram_usage == Some((r.ram_used_mb, r.ram_total_mb))
            }
            &&& total_kib / 1024 == 0 ==> r.ram_used_mb == st.ram_used_mb && r.ram_usage == st.ram_usage
            &&& r.swap_total_mb == st.swap_total_mb
            &&& r.swap_used_mb == st.swap_used_mb
            &&& r.swap_usage == st.swap_usage
        }),
{
    reveal_strlit("MemTotal:");
    reveal_strlit("MemAvailable:");
    reveal_strlit("MemFree:");
    let t = "MemTotal:"@;
    assert(forall|i: int| 0 <= i < t.len() ==> !is_ws(#[trigger] t[i]));
    assert(forall|i: int| 0 <= i < avail_key.len() ==> !is_ws(#[trigger] avail_key[i]));
    lemma_meminfo_line(t, total_kib);
    lemma_meminfo_line(avail_key, avail_kib);
    let l1 = meminfo_line(t, total_kib);
    let l2 = meminfo_line(avail_key, avail_kib);
    lemma_lines_two(l1, l2);
    let ls = seq![l1, l2];
    assert(ls.drop_last() =~= seq![l1]);
    assert(seq![l1].drop_last() =~= Seq::<Seq<char>>::empty());
    assert(mem_fold(st, Seq::<Seq<char>>::empty()) == st);
    assert(seq![l1].last() == l1);
    assert(mem_fold(st, seq![l1]) == mem_step(st, l1));
    assert(ls.last() == l2);
    assert(mem_fold(st, ls) == mem_step(mem_step(st, l1), l2));
    lemma_differs_at(l1, "MemAvailable:"@, 3);
    lemma_differs_at(l1, "MemFree:"@, 3);
    lemma_differs_at(l2, t, 3);
    assert(mib_field(l1) == total_kib / 1024);
    assert(mib_field(l2) == avail_kib / 1024);
}

/// Swap: after a `SwapTotal` line of `total_kib` KiB and then a
/// `SwapFree` line of `free_kib` KiB, from any figures before, the total
/// is `total_kib / 1024` MiB; where that total is not 0, the used figure
/// is the total less `free_kib / 1024` (0 where the free swap is more)
/// and the usage pair is (used, total), and where it is 0 they are left
/// as they were; the RAM figures are left as they were.
pub proof fn lemma_swap_used_is_total_less_free(st: MemoryStats, total_kib: nat, free_kib: nat)
    requires
        total_kib <= crate::net::stats::u64_max(),
        free_kib <= crate::net::stats::u64_max(),
    ensures
        ({
            let r = mem_fold(
                st,
                lines(meminfo_line("SwapTotal:"@, total_kib) + seq!['\n'] + meminfo_line("SwapFree:"@, free_kib) + seq!['\n']),
            );
            &&& r.swap_total_mb == total_kib / 1024
            &&& total_kib / 1024 > 0 ==> {
                &&& free_kib / 1024 <= total_kib / 1024 ==> r.swap_used_mb + free_kib / 1024 == r.swap_total_mb
                &&& free_kib / 1024 > total_kib / 1024 ==> r.swap_used_mb == 0
                &&& r.swap_usage == Some((r.swap_used_mb, r.swap_total_mb))
            }
            &&& total_kib / 1024 == 0 ==> r.swap_used_mb == st.swap_used_mb && r.swap_usage == st.swap_usage
            &&& r.ram_total_mb == st.ram_total_mb
            &&& r.ram_used_mb == st.ram_used_mb
            &&& r.ram_usage == st.ram_usage
        }),
{
    reveal_strlit("SwapTotal:");
    reveal_strlit("SwapFree:");
    reveal_strlit("MemTotal:");
    reveal_strlit("MemAvailable:");
    reveal_strlit("MemFree:");
    let t = "SwapTotal:"@;
    let f = "SwapFree:"@;
    assert(forall|i: int| 0 <= i < t.len() ==> !is_ws(#[trigger] t[i]));
    assert(forall|i: int| 0 <= i < f.len() ==> !is_ws(#[trigger] f[i]));
    lemma_meminfo_line(t, total_kib);
    lemma_meminfo_line(f, free_kib);
    let l1 = meminfo_line(t, total_kib);
    let l2 = meminfo_line(f, free_kib);
    lemma_lines_two(l1, l2);
    let ls = seq![l1, l2];
    assert(ls.drop_last() =~= seq![l1]);
    assert(seq![l1].drop_last() =~= Seq::<Seq<char>>::empty());
    assert(mem_fold(st, Seq::<Seq<char>>::empty()) == st);
    assert(seq![l1].last() == l1);
    assert(mem_fold(st, seq![l1]) == mem_step(st, l1));
    assert(ls.last() == l2);
    assert(mem_fold(st, ls) == mem_step(mem_step(st, l1), l2));
    lemma_differs_at(l1, "MemTotal:"@, 0);
    lemma_differs_at(l1, "MemAvailable:"@, 0);
    lemma_differs_at(l1, "MemFree:"@, 0);
    lemma_differs_at(l2, "MemTotal:"@, 0);
    lemma_differs_at(l2, "MemAvailable:"@, 0);
    lemma_differs_at(l2, "MemFree:"@, 0);
    lemma_differs_at(l2, t, 4);
    assert(mib_field(l1) == total_kib / 1024);
    assert(mib_field(l2) == free_kib / 1024);
}

proof fn lemma_differs_at(s: Seq<char>, p: Seq<char>, i: int)
    requires
        0 <= i < p.len(),
        i < s.len(),
        s[i] != p[i],
    ensures
        !starts_with(s, p),
{
    if p.len() <= s.len() {
        assert(s.take(p.len() as int)[i] == s[i]);
    }
}

fn mib_field_exec(line: &[char]) -> (r: u64)
    ensures
        r as nat == mib_field(line@),
{
    let toks = ws_tokens_chars(line);
    let v = if toks.len() > 1 {
        assert(views(toks@)[1] == toks@[1]@);
        num_or_zero_chars(toks[1].as_slice())
    } else {
        0
    };
    v / 1024
}

fn mem_step_exec(st: &mut MemoryStats, line: &[char])
    ensures
        *final(st) == mem_step(*old(st), line@),
{
    let v = mib_field_exec(line);
    if chars_starts_with(line, str_chars("MemTotal:").as_slice()) {
        st.ram_total_mb = v;
    } else if chars_starts_with(line, str_chars("MemAvailable:").as_slice()) || chars_starts_with(
        line,
        str_chars("MemFree:").as_slice(),
    ) {
        if st.ram_total_mb > 0 {
            let used = st.ram_total_mb.saturating_sub(v);
            st.ram_used_mb = used;
            st.ram_usage = Some((used, st.ram_total_mb));
        }
    } else if chars_starts_with(line, str_chars("SwapTotal:").as_slice()) {
        st.swap_total_mb = v;
    } else if chars_starts_with(line, str_chars("SwapFree:").as_slice()) {
        if st.swap_total_mb > 0 {
            let used = st.swap_total_mb.saturating_sub(v);
            st.swap_used_mb = used;
            st.swap_usage = Some((used, st.swap_total_mb));
        }
    }
}

/// Reads the `/proc/meminfo` section into `stats`: `MemTotal`,
/// `SwapTotal` set the totals (KiB to MiB), `MemAvailable`/`MemFree`
/// and `SwapFree` the used figures, where the total is known.
pub fn parse_memory_stats(stats: &mut MemoryStats, memory_part: &str)
    ensures
        *final(stats) == mem_fold(*old(stats), lines(memory_part@)),
{
    let chars = str_chars(memory_part);
    let ls = lines_chars(chars.as_slice());
    let mut i: usize = 0;
    while i < ls.len()
        invariant
            i <= ls.len(),
            *stats == mem_fold(*old(stats), views(ls@).take(i as int)),
        decreases ls.len() - i,
    {
        let ghost tk = views(ls@).take(i + 1);
        assert(tk.drop_last() =~= views(ls@).take(i as int));
        assert(tk.last() == ls@[i as int]@);
        mem_step_exec(stats, ls[i].as_slice());
        i = i + 1;
    }
    assert(views(ls@).take(ls.len() as int) =~= views(ls@));
}

// ------------------------------------------------------------------
// Temperatures
// ------------------------------------------------------------------

/// The lower case of `s` (`str::to_lowercase`, Unicode's case mapping).
pub uninterp spec fn lowercase(s: Seq<char>) -> Seq<char>;

/// `str::to_lowercase`: the result is `lowercase` of the argument, a
/// function of the characters alone (Rust's mapping does not depend on
/// a locale). What the mapping is, character by character, is not
/// stated.
#[verifier::external_body]
pub(crate) fn to_lowercase(s: &str) -> (r: String)
    ensures
        r@ == lowercase(s@),
{
    s.to_lowercase()
}

/// The reading of one thermal line: a line that names a core or the
/// package (in any case) and has exactly one `:` gives its trimmed name
/// and its trimmed value text.
pub open spec fn temperature_row(line: Seq<char>) -> Option<(Seq<char>, Seq<char>)> {
    let low = lowercase(line);
    let parts = split_char(line, ':');
    if (contains(low, "core"@) || contains(low, "package"@)) && parts.len() == 2 {
        Some((trim(parts[0]), trim(parts[1])))
    } else {
        None
    }
}

/// The readings of the lines `ls`, in order.
pub open spec fn temperature_rows(ls: Seq<Seq<char>>) -> Seq<(Seq<char>, Seq<char>)>
    decreases ls.len(),
{
    if ls.len() == 0 {
        Seq::empty()
    } else {
        let prev = temperature_rows(ls.drop_last());
        match temperature_row(ls.last()) {
            Some(r) => prev.push(r),
            None => prev,
        }
    }
}

/// A temperature reading: the sensor's name and its value text (in
/// millidegrees).
pub struct TemperatureReading {
    pub name: String,
    pub value: String,
}

/// The readings as pairs of character sequences.
pub open spec fn reading_views(v: Seq<TemperatureReading>) -> Seq<(Seq<char>, Seq<char>)> {
    v.map_values(|r: TemperatureReading| (r.name@, r.value@))
}

/// The core and package readings of the thermal section, in order.
pub fn parse_cpu_temperatures(temp_part: &str) -> (r: Vec<TemperatureReading>)
    ensures
        reading_views(r@) == temperature_rows(lines(temp_part@)),
{
    let chars = str_chars(temp_part);
    let ls = lines_chars(chars.as_slice());
    let core = str_chars("core");
    let package = str_chars("package");
    let mut out: Vec<TemperatureReading> = Vec::new();
    let mut i: usize = 0;
    while i < ls.len()
        invariant
            i <= ls.len(),
            core@ == "core"@,
            package@ == "package"@,
            reading_views(out@) == temperature_rows(views(ls@).take(i as int)),
        decreases ls.len() - i,
    {
        let ghost tk = views(ls@).take(i + 1);
        assert(tk.drop_last() =~= views(ls@).take(i as int));
        assert(tk.last() == ls@[i as int]@);
        let line = ls[i].as_slice();
        let line_string = chars_to_string(line);
        let low = to_lowercase(line_string.as_str());
        let low_chars = str_chars(low.as_str());
        let parts = split_chars(line, ':');
        if (chars_contains(low_chars.as_slice(), core.as_slice()) || chars_contains(
            low_chars.as_slice(),
            package.as_slice(),
        )) && parts.len() == 2 {
            assert(views(parts@)[0] == parts@[0]@);
            assert(views(parts@)[1] == parts@[1]@);
            let name = trim_chars(parts[0].as_slice());
            let value = trim_chars(parts[1].as_slice());
            let reading = TemperatureReading {
                name: chars_to_string(name.as_slice()),
                value: chars_to_string(value.as_slice()),
            };
            let ghost before = out@;
            out.push(reading);
            assert(reading_views(out@) =~= reading_views(before).push((name@, value@)));
        }
        i = i + 1;
    }
    assert(views(ls@).take(ls.len() as int) =~= views(ls@));
    out
}

// ------------------------------------------------------------------
// GPU
// ------------------------------------------------------------------

/// The two value texts of the GPU section: its first two comma-separated
/// fields, trimmed, unless the section is blank or `NO_GPU` or has fewer
/// than two fields.
pub open spec fn gpu_fields(gpu_part: Seq<char>) -> Option<(Seq<char>, Seq<char>)> {
    let l = trim(gpu_part);
    let toks = split_char(l, ',');
    if l != "NO_GPU"@ && l.len() > 0 && toks.len() >= 2 {
        Some((trim(toks[0]), trim(toks[1])))
    } else {
        None
    }
}

proof fn lemma_trim_plain(y: Seq<char>)
    requires
        y.len() > 0,
        !is_ws(y[0]),
        !is_ws(y.last()),
    ensures
        trim(y) == y,
{
    assert(trim_start(y) == y);
    assert(trim_end(y) == y);
}

/// The GPU section `usage, temperature` (as `nvidia-smi` prints it, with
/// a line break) gives those two texts, where neither holds whitespace or
/// a comma; `NO_GPU` and a blank section give none.
pub proof fn lemma_gpu_fields(u: Seq<char>, t: Seq<char>)
    requires
        u.len() > 0,
        t.len() > 0,
        forall|i: int| 0 <= i < u.len() ==> !is_ws(#[trigger] u[i]) && u[i] != ',',
        forall|i: int| 0 <= i < t.len() ==> !is_ws(#[trigger] t[i]) && t[i] != ',',
    ensures
        gpu_fields(u + seq![',', ' '] + t + seq!['\n']) == Some((u, t)),
        gpu_fields("NO_GPU\n"@) is None,
        gpu_fields(Seq::<char>::empty()) is None,
{
    reveal_strlit("NO_GPU");
    reveal_strlit("NO_GPU\n");
    let y = u + seq![',', ' '] + t;
    let x = y.push('\n');
    assert(u + seq![',', ' '] + t + seq!['\n'] =~= x);
    assert(is_ws('\n') && is_ws(' ') && !is_ws(','));
    assert(x.drop_last() =~= y);
    lemma_trim_drop_last_ws(x);
    assert(y[0] == u[0]);
    assert(y.last() == t.last());
    assert(!is_ws(t[t.len() - 1]));
    lemma_trim_plain(y);
    let after = seq![' '] + t;
    assert forall|i: int| 0 <= i < after.len() implies after[i] != ',' by {
        if i > 0 {
            assert(after[i] == t[i - 1]);
        }
    }
    lemma_split_char_none(u, ',');
    lemma_split_char_none(after, ',');
    lemma_split_char_concat(u, after, ',');
    assert(u.push(',') + after =~= y);
    let toks = split_char(y, ',');
    assert(toks =~= seq![u, after]);
    assert(!is_ws(u[u.len() - 1]));
    lemma_trim_plain(u);
    assert(trim_start(after) == trim_start(after.drop_first()));
    assert(after.drop_first() =~= t);
    assert(trim_start(t) == t);
    assert(trim_end(t) == t);
    assert(y[u.len() as int] == ',');
    if y == "NO_GPU"@ {
        assert("NO_GPU"@[u.len() as int] != ',');
    }
    // the other two sections
    let n = "NO_GPU\n"@;
    assert(n.drop_last() =~= "NO_GPU"@);
    lemma_trim_drop_last_ws(n);
    lemma_trim_plain("NO_GPU"@);
    let e = Seq::<char>::empty();
    assert(trim(e) == e);
}

/// The usage and temperature texts of the GPU section, where it reports
/// a GPU.
pub fn parse_gpu_stats(gpu_part: &str) -> (r: Option<(String, String)>)
    ensures
        match r {
            Some((u, t)) => gpu_fields(gpu_part@) == Some((u@, t@)),
            None => gpu_fields(gpu_part@) is None,
        },
{
    let chars = str_chars(gpu_part);
    let l = trim_chars(chars.as_slice());
    let no_gpu = str_chars("NO_GPU");
    if crate::text::chars_eq(l.as_slice(), no_gpu.as_slice()) || l.len() == 0 {
        return None;
    }
    let toks = split_chars(l.as_slice(), ',');
    if toks.len() < 2 {
        return None;
    }
    assert(views(toks@)[0] == toks@[0]@);
    assert(views(toks@)[1] == toks@[1]@);
    let u = trim_chars(toks[0].as_slice());
    let t = trim_chars(toks[1].as_slice());
    Some((chars_to_string(u.as_slice()), chars_to_string(t.as_slice())))
}

// ------------------------------------------------------------------
// Disk space
// ------------------------------------------------------------------

/// The space of one mounted file system.
pub struct DiskSpaceStat {
    pub mount_point: String,
    pub used_bytes: u64,
    pub total_bytes: u64,
}

/// The disk of one `df` line: mount point, used and size tokens, for a
/// line of at least three tokens whose mount point starts with `/` and
/// whose size is not 0.
pub open spec fn disk_space_row(line: Seq<char>) -> Option<(Seq<char>, nat, nat)> {
    let toks = ws_tokens(line);
    if toks.len() >= 3 && num_or_zero(toks[2]) > 0 && starts_with(toks[0], "/"@) {
        Some((toks[0], num_or_zero(toks[1]), num_or_zero(toks[2])))
    } else {
        None
    }
}

/// The disks of the lines `ls`, in order.
pub open spec fn disk_space_rows(ls: Seq<Seq<char>>) -> Seq<(Seq<char>, nat, nat)>
    decreases ls.len(),
{
    if ls.len() == 0 {
        Seq::empty()
    } else {
        let prev = disk_space_rows(ls.drop_last());
        match disk_space_row(ls.last()) {
            Some(r) => prev.push(r),
            None => prev,
        }
    }
}

/// Words made of a first word and numerals, separated by spaces, are
/// read back as those tokens, the numerals as their values.
pub proof fn lemma_numbered_words(first: Seq<char>, ns: Seq<nat>)
    requires
        first.len() > 0,
        forall|i: int| 0 <= i < first.len() ==> !is_ws(#[trigger] first[i]),
        forall|i: int| 0 <= i < ns.len() ==> #[trigger] ns[i] <= crate::net::stats::u64_max(),
    ensures
        ws_tokens(join(seq![first] + ns.map_values(|n: nat| decimal(n)), seq![' '])) == seq![first]
            + ns.map_values(|n: nat| decimal(n)),
        forall|i: int| 0 <= i < ns.len() ==> num_or_zero(#[trigger] decimal(ns[i])) == ns[i],
{
    let ws = seq![first] + ns.map_values(|n: nat| decimal(n));
    assert forall|i: int| 0 <= i < ns.len() implies num_or_zero(#[trigger] decimal(ns[i])) == ns[i] by {
        lemma_parse_decimal(ns[i], crate::net::stats::u64_max());
    }
    assert forall|i: int| 0 <= i < ws.len() implies (#[trigger] ws[i]).len() > 0 by {
        if i > 0 {
            assert(ws[i] == decimal(ns[i - 1]));
            lemma_decimal_digits(ns[i - 1]);
        }
    }
    assert forall|i: int, j: int| 0 <= i < ws.len() && 0 <= j < ws[i].len() implies !is_ws(#[trigger] ws[i][j]) by {
        if i > 0 {
            assert(ws[i] == decimal(ns[i - 1]));
            lemma_decimal_digits(ns[i - 1]);
            assert(crate::decimal::is_digit(ws[i][j]));
        }
    }
    lemma_ws_tokens_spaced(ws);
}

/// A `df` line naming a mount point under `/`, then its used bytes and
/// its size, is read as that file system with those figures, where the
/// size is not 0; a line whose size is 0 is skipped.
pub proof fn lemma_df_line(mount: Seq<char>, used: nat, size: nat)
    requires
        starts_with(mount, "/"@),
        forall|i: int| 0 <= i < mount.len() ==> !is_ws(#[trigger] mount[i]),
        used <= crate::net::stats::u64_max(),
        size <= crate::net::stats::u64_max(),
    ensures
        disk_space_row(join(seq![mount, decimal(used), decimal(size)], seq![' '])) == (if size > 0 {
            Some((mount, used, size))
        } else {
            None
        }),
{
    reveal_strlit("/");
    let ns = seq![used, size];
    lemma_numbered_words(mount, ns);
    assert(seq![mount] + ns.map_values(|n: nat| decimal(n)) =~= seq![mount, decimal(used), decimal(size)]);
    assert(ns[0] == used && ns[1] == size);
}

/// The disks as mathematical values.
pub open spec fn disk_views(v: Seq<DiskSpaceStat>) -> Seq<(Seq<char>, nat, nat)> {
    v.map_values(|d: DiskSpaceStat| (d.mount_point@, d.used_bytes as nat, d.total_bytes as nat))
}

/// Appends the mounted file systems of the `df` section to `disks`.
pub fn parse_disk_space(disks: &mut Vec<DiskSpaceStat>, disk_part: &str)
    ensures
        disk_views(final(disks)@) == disk_views(old(disks)@) + disk_space_rows(lines(disk_part@)),
{
    let chars = str_chars(disk_part);
    let ls = lines_chars(chars.as_slice());
    let slash = str_chars("/");
    let mut i: usize = 0;
    while i < ls.len()
        invariant
            i <= ls.len(),
            slash@ == "/"@,
            disk_views(disks@) == disk_views(old(disks)@) + disk_space_rows(
                views(ls@).take(i as int),
            ),
        decreases ls.len() - i,
    {
        let ghost tk = views(ls@).take(i + 1);
        assert(tk.drop_last() =~= views(ls@).take(i as int));
        assert(tk.last() == ls@[i as int]@);
        let toks = ws_tokens_chars(ls[i].as_slice());
        if toks.len() >= 3 {
            assert(views(toks@)[0] == toks@[0]@);
            assert(views(toks@)[1] == toks@[1]@);
            assert(views(toks@)[2] == toks@[2]@);
            let used = num_or_zero_chars(toks[1].as_slice());
            let total = num_or_zero_chars(toks[2].as_slice());
            if total > 0 && chars_starts_with(toks[0].as_slice(), slash.as_slice()) {
                let d = DiskSpaceStat {
                    mount_point: chars_to_string(toks[0].as_slice()),
                    used_bytes: used,
                    total_bytes: total,
                };
                let ghost before = disks@;
                disks.push(d);
                assert(disk_views(disks@) =~= disk_views(before).push(
                    (toks@[0]@, used as nat, total as nat),
                ));
            }
        }
        i = i + 1;
    }
    assert(views(ls@).take(ls.len() as int) =~= views(ls@));
}

// ------------------------------------------------------------------
// Players
// ------------------------------------------------------------------

/// A car slot of the AC server's `/JSON|` report.
pub struct AcServerCar {
    pub model: String,
    pub skin: String,
    pub driver_name: String,
    pub driver_team: String,
    pub driver_nation: String,
    pub is_connected: bool,
    pub is_requested_guid: bool,
    pub is_entry_list: bool,
    pub driver_guid: Option<String>,
}

/// The AC server's `/JSON|` report.
pub struct AcServerResponse {
    pub cars: Vec<AcServerCar>,
}

/// A player connected to the AC server.
pub struct AcPlayer {
    pub name: String,
    pub car: String,
    pub skin: String,
    pub team: String,
    pub nation: String,
    pub guid: Option<String>,
    pub is_entry_list: bool,
}

/// `s`, or `Unknown` where it is empty.
pub open spec fn or_unknown(s: Seq<char>) -> Seq<char> {
    if s.len() == 0 {
        "Unknown"@
    } else {
        s
    }
}

/// `p` is the player that the connected car slot `c` shows.
pub open spec fn player_of(p: AcPlayer, c: AcServerCar) -> bool {
    &&& p.name@ == or_unknown(c.driver_name@)
    &&& p.car@ == or_unknown(c.model@)
    &&& p.skin@ == c.skin@
    &&& p.team@ == c.driver_team@
    &&& p.nation@ == c.driver_nation@
    &&& p.guid == c.driver_guid
    &&& p.is_entry_list == c.is_entry_list
}

/// The connected slots of `cars`, in order.
pub open spec fn connected_cars(cars: Seq<AcServerCar>) -> Seq<AcServerCar>
    decreases cars.len(),
{
    if cars.len() == 0 {
        Seq::empty()
    } else {
        let prev = connected_cars(cars.drop_last());
        if cars.last().is_connected {
            prev.push(cars.last())
        } else {
            prev
        }
    }
}

fn text_or_unknown(s: String) -> (r: String)
    ensures
        r@ == or_unknown(s@),
{
    if s.as_str().is_empty() {
        let mut r = String::new();
        crate::text::append_str(&mut r, "Unknown");
        r
    } else {
        s
    }
}

/// The players of the report: one per connected car slot, in order,
/// with `Unknown` for a missing driver name or car model.
pub fn parse_ac_players(players: &mut Vec<AcPlayer>, response: AcServerResponse)
    ensures
        final(players)@.len() == connected_cars(response.cars@).len(),
        forall|i: int|
            0 <= i < final(players)@.len() ==> player_of(
                #[trigger] final(players)@[i],
                connected_cars(response.cars@)[i],
            ),
{
    let ghost cars = response.cars@;
    assert(cars.skip(0) =~= cars);
    let mut out: Vec<AcPlayer> = Vec::new();
    let mut rest = response.cars;
    let mut taken: usize = 0;
    let n = rest.len();
    while rest.len() > 0
        invariant
            n == cars.len(),
            taken + rest@.len() == n,
            rest@ == cars.skip(taken as int),
            out@.len() == connected_cars(cars.take(taken as int)).len(),
            forall|i: int|
                0 <= i < out@.len() ==> player_of(
                    #[trigger] out@[i],
                    connected_cars(cars.take(taken as int))[i],
                ),
        decreases rest.len(),
    {
        let car = rest.remove(0);
        let ghost tk = cars.take(taken + 1);
        assert(tk.drop_last() =~= cars.take(taken as int));
        assert(car == cars[taken as int]);
        assert(tk.last() == car);
        assert(rest@ =~= cars.skip(taken + 1));
        if car.is_connected {
            let p = AcPlayer {
                name: text_or_unknown(car.driver_name),
                car: text_or_unknown(car.model),
                skin: car.skin,
                team: car.driver_team,
                nation: car.driver_nation,
                guid: car.driver_guid,
                is_entry_list: car.is_entry_list,
            };
            out.push(p);
        }
        taken = taken + 1;
    }
    assert(cars.take(taken as int) =~= cars);
    *players = out;
}

// ------------------------------------------------------------------
// Counter differences between two samples
// ------------------------------------------------------------------

/// The total and idle time that a CPU spent between two samples.
pub struct CoreDelta {
    pub core_id: String,
    pub total_delta: u64,
    pub idle_delta: u64,
}

/// The entry of `table` named `name`, where there is one.
pub open spec fn lookup(table: Seq<(Seq<char>, nat, nat)>, name: Seq<char>) -> Option<(Seq<char>, nat, nat)> {
    if exists|k: int| 0 <= k < table.len() && table[k].0 == name {
        Some(table[choose|k: int| 0 <= k < table.len() && table[k].0 == name])
    } else {
        None
    }
}

/// The differences, CPU by CPU of `cur` that `prev` also has, in the
/// order of `cur`: (name, total time spent, idle time spent).
pub open spec fn cpu_deltas(prev: Seq<(Seq<char>, nat, nat)>, cur: Seq<(Seq<char>, nat, nat)>) -> Seq<
    (Seq<char>, nat, nat),
>
    decreases cur.len(),
{
    if cur.len() == 0 {
        Seq::empty()
    } else {
        let before = cpu_deltas(prev, cur.drop_last());
        let c = cur.last();
        match lookup(prev, c.0) {
            Some(p) => before.push((c.0, sat_sub(c.2, p.2), sat_sub(c.1, p.1))),
            None => before,
        }
    }
}

/// The differences of the single CPUs (all but the aggregate `cpu`).
pub open spec fn core_deltas(d: Seq<(Seq<char>, nat, nat)>) -> Seq<(Seq<char>, nat, nat)>
    decreases d.len(),
{
    if d.len() == 0 {
        Seq::empty()
    } else {
        let before = core_deltas(d.drop_last());
        if d.last().0 == "cpu"@ {
            before
        } else {
            before.push(d.last())
        }
    }
}

/// The difference of the aggregate `cpu` line, where both samples have it.
pub open spec fn total_delta(d: Seq<(Seq<char>, nat, nat)>) -> Option<(nat, nat)>
    decreases d.len(),
{
    if d.len() == 0 {
        None
    } else if d.last().0 == "cpu"@ {
        Some((d.last().1, d.last().2))
    } else {
        total_delta(d.drop_last())
    }
}

/// The names of the entries.
pub open spec fn names_of(items: Seq<(Seq<char>, nat, nat)>) -> Seq<Seq<char>> {
    items.map_values(|e: (Seq<char>, nat, nat)| e.0)
}

/// `r` is `items` stably sorted by their names.
pub open spec fn sorted_by_name(r: Seq<(Seq<char>, nat, nat)>, items: Seq<(Seq<char>, nat, nat)>) -> bool {
    exists|order: Seq<usize>|
        #![trigger stably_sorted(names_of(items), order)]
        order.len() == items.len() && stably_sorted(names_of(items), order) && r
            == order.map_values(|i: usize| items[i as int])
}

/// The differences as mathematical values.
pub open spec fn delta_views(v: Seq<CoreDelta>) -> Seq<(Seq<char>, nat, nat)> {
    v.map_values(|d: CoreDelta| (d.core_id@, d.total_delta as nat, d.idle_delta as nat))
}

/// The CPU time spent between two samples: that of the aggregate `cpu`
/// line (total, idle), where both samples have it, and that of each
/// single CPU that both samples have, sorted by name.
pub struct CpuUsage {
    pub total: Option<(u64, u64)>,
    pub cores: Vec<CoreDelta>,
}

fn find_cpu(table: &Vec<CpuTimes>, name: &String) -> (r: Option<usize>)
    requires
        unique_names(cpu_view(table@)),
    ensures
        match r {
            Some(k) => k < table@.len() && lookup(cpu_view(table@), name@) == Some(
                cpu_view(table@)[k as int],
            ),
            None => lookup(cpu_view(table@), name@) is None,
        },
{
    let ghost t = cpu_view(table@);
    let mut k: usize = 0;
    while k < table.len()
        invariant
            k <= table.len(),
            t == cpu_view(table@),
            unique_names(t),
            forall|j: int| 0 <= j < k ==> t[j].0 != name@,
        decreases table.len() - k,
    {
        assert(t[k as int].0 == table@[k as int].name@);
        if table[k].name.eq(name) {
            let ghost c = choose|j: int| 0 <= j < t.len() && t[j].0 == name@;
            assert(c == k) by {
                if c != k {
                    if c > k {
                        assert(t[k as int].0 != t[c].0);
                    }
                }
            }
            return Some(k);
        }
        k = k + 1;
    }
    None
}

proof fn lemma_lookup_unique(table: Seq<(Seq<char>, nat, nat)>, j: int)
    requires
        unique_names(table),
        0 <= j < table.len(),
    ensures
        lookup(table, table[j].0) == Some(table[j]),
{
    let k = choose|k: int| 0 <= k < table.len() && table[k].0 == table[j].0;
    if k != j {
        if k < j {
            assert(table[k].0 != table[j].0);
        } else {
            assert(table[j].0 != table[k].0);
        }
    }
}

proof fn lemma_total_delta_at(prev: Seq<(Seq<char>, nat, nat)>, cur: Seq<(Seq<char>, nat, nat)>, k: int, p: (Seq<char>, nat, nat))
    requires
        unique_names(cur),
        0 <= k < cur.len(),
        cur[k].0 == "cpu"@,
        lookup(prev, "cpu"@) == Some(p),
    ensures
        total_delta(cpu_deltas(prev, cur)) == Some((sat_sub(cur[k].2, p.2), sat_sub(cur[k].1, p.1))),
    decreases cur.len(),
{
    let before = cpu_deltas(prev, cur.drop_last());
    if k < cur.len() - 1 {
        assert(cur.last() == cur[cur.len() - 1]);
        assert(cur[k].0 != cur[cur.len() - 1].0);
        assert(unique_names(cur.drop_last()));
        lemma_total_delta_at(prev, cur.drop_last(), k, p);
        match lookup(prev, cur.last().0) {
            Some(q) => {
                let c = cur.last();
                assert(before.push((c.0, sat_sub(c.2, q.2), sat_sub(c.1, q.1))).drop_last() =~= before);
            },
            None => {},
        }
    }
}

/// Between two samples whose CPU names are distinct, the time spent by
/// all CPUs together (the `cpu` line) is how much its total and idle
/// counters grew (0 where one went back), and there is none where the
/// later sample has no `cpu` line.
pub proof fn lemma_cpu_total_is_growth(prev: Seq<(Seq<char>, nat, nat)>, cur: Seq<(Seq<char>, nat, nat)>)
    requires
        unique_names(prev),
        unique_names(cur),
    ensures
        forall|j: int, k: int|
            0 <= j < prev.len() && 0 <= k < cur.len() && prev[j].0 == "cpu"@ && cur[k].0 == "cpu"@
                ==> total_delta(cpu_deltas(prev, cur)) == Some(
                (sat_sub(cur[k].2, prev[j].2), sat_sub(cur[k].1, prev[j].1)),
            ),
        (forall|k: int| 0 <= k < cur.len() ==> cur[k].0 != "cpu"@) ==> total_delta(cpu_deltas(prev, cur)) is None,
{
    assert forall|j: int, k: int|
        0 <= j < prev.len() && 0 <= k < cur.len() && prev[j].0 == "cpu"@ && cur[k].0 == "cpu"@ implies total_delta(
            cpu_deltas(prev, cur),
        ) == Some((sat_sub(cur[k].2, prev[j].2), sat_sub(cur[k].1, prev[j].1))) by {
        lemma_lookup_unique(prev, j);
        lemma_total_delta_at(prev, cur, k, prev[j]);
    }
    if forall|k: int| 0 <= k < cur.len() ==> cur[k].0 != "cpu"@ {
        lemma_no_total(prev, cur);
    }
}

proof fn lemma_no_total(prev: Seq<(Seq<char>, nat, nat)>, cur: Seq<(Seq<char>, nat, nat)>)
    requires
        forall|k: int| 0 <= k < cur.len() ==> cur[k].0 != "cpu"@,
    ensures
        total_delta(cpu_deltas(prev, cur)) is None,
        forall|k: int| 0 <= k < cpu_deltas(prev, cur).len() ==> (#[trigger] cpu_deltas(prev, cur)[k]).0 != "cpu"@,
    decreases cur.len(),
{
    if cur.len() > 0 {
        lemma_no_total(prev, cur.drop_last());
        assert(cur.last() == cur[cur.len() - 1]);
        let before = cpu_deltas(prev, cur.drop_last());
        match lookup(prev, cur.last().0) {
            Some(q) => {
                let c = cur.last();
                let d = before.push((c.0, sat_sub(c.2, q.2), sat_sub(c.1, q.1)));
                assert(d.drop_last() =~= before);
                assert(d.last().0 != "cpu"@);
            },
            None => {},
        }
    }
}

/// The time spent by each single CPU is that of every CPU but the
/// aggregate `cpu` line, in order.
pub proof fn lemma_core_deltas_skip_aggregate(d: Seq<(Seq<char>, nat, nat)>)
    ensures
        core_deltas(d) == d.filter(|e: (Seq<char>, nat, nat)| e.0 != "cpu"@),
    decreases d.len(),
{
    reveal(Seq::filter);
    if d.len() > 0 {
        lemma_core_deltas_skip_aggregate(d.drop_last());
    }
}

/// A single CPU that both samples have, whose names are distinct, spent
/// between them how much its total and idle counters grew (0 where one
/// went back).
pub proof fn lemma_core_delta_is_growth(
    prev: Seq<(Seq<char>, nat, nat)>,
    cur: Seq<(Seq<char>, nat, nat)>,
    j: int,
    k: int,
)
    requires
        unique_names(prev),
        0 <= j < prev.len(),
        0 <= k < cur.len(),
        prev[j].0 == cur[k].0,
    ensures
        cpu_deltas(prev, cur).contains((cur[k].0, sat_sub(cur[k].2, prev[j].2), sat_sub(cur[k].1, prev[j].1))),
    decreases cur.len(),
{
    lemma_lookup_unique(prev, j);
    let before = cpu_deltas(prev, cur.drop_last());
    let c = cur.last();
    let e = (cur[k].0, sat_sub(cur[k].2, prev[j].2), sat_sub(cur[k].1, prev[j].1));
    if k == cur.len() - 1 {
        assert(c == cur[k]);
        let d = before.push(e);
        assert(d[d.len() - 1] == e);
    } else {
        lemma_core_delta_is_growth(prev, cur.drop_last(), j, k);
        assert(cur.drop_last()[k] == cur[k]);
        let w = choose|w: int| 0 <= w < before.len() && before[w] == e;
        match lookup(prev, c.0) {
            Some(q) => {
                let d = before.push((c.0, sat_sub(c.2, q.2), sat_sub(c.1, q.1)));
                assert(d[w] == e);
            },
            None => {},
        }
    }
}

/// The CPU time spent between the samples `prev` and `current`.
pub fn compute_cpu_usage(prev: &RawStats, current: &RawStats) -> (r: CpuUsage)
    requires
        unique_names(prev@.cpu),
    ensures
        r.total == (match total_delta(cpu_deltas(prev@.cpu, current@.cpu)) {
            Some((t, i)) => Some((t as u64, i as u64)),
            None => None,
        }),
        sorted_by_name(delta_views(r.cores@), core_deltas(cpu_deltas(prev@.cpu, current@.cpu))),
{
    let ghost pv = prev@.cpu;
    let ghost cv = current@.cpu;
    let cpu_name = str_chars("cpu");
    let mut total: Option<(u64, u64)> = None;
    let mut cores: Vec<CoreDelta> = Vec::new();
    let mut i: usize = 0;
    while i < current.cpu.len()
        invariant
            i <= current.cpu.len(),
            pv == prev@.cpu,
            cv == current@.cpu,
            cv == cpu_view(current.cpu@),
            unique_names(pv),
            cpu_name@ == "cpu"@,
            total == (match total_delta(cpu_deltas(pv, cv.take(i as int))) {
                Some((t, i)) => Some((t as u64, i as u64)),
                None => None,
            }),
            delta_views(cores@) == core_deltas(cpu_deltas(pv, cv.take(i as int))),
        decreases current.cpu.len() - i,
    {
        let c = &current.cpu[i];
        let ghost tk = cv.take(i + 1);
        assert(tk.drop_last() =~= cv.take(i as int));
        assert(tk.last() == (c.name@, c.idle as nat, c.total as nat));
        let ghost before = cpu_deltas(pv, cv.take(i as int));
        match find_cpu(&prev.cpu, &c.name) {
            Some(k) => {
                let p = &prev.cpu[k];
                let td = c.total.saturating_sub(p.total);
                let id = c.idle.saturating_sub(p.idle);
                let ghost e = (c.name@, td as nat, id as nat);
                assert(cpu_deltas(pv, tk) == before.push(e));
                assert(before.push(e).drop_last() =~= before);
                let name_chars = str_chars(c.name.as_str());
                if crate::text::chars_eq(name_chars.as_slice(), cpu_name.as_slice()) {
                    total = Some((td, id));
                    assert(core_deltas(before.push(e)) == core_deltas(before));
                } else {
                    let d = CoreDelta { core_id: c.name.clone(), total_delta: td, idle_delta: id };
                    let ghost cb = cores@;
                    cores.push(d);
                    assert(delta_views(cores@) =~= delta_views(cb).push(e));
                }
            },
            None => {},
        }
        i = i + 1;
    }
    assert(cv.take(current.cpu.len() as int) =~= cv);
    // sort the single CPUs by name
    let mut keys: Vec<Vec<char>> = Vec::new();
    let mut j: usize = 0;
    while j < cores.len()
        invariant
            j <= cores.len(),
            keys@.len() == j,
            forall|t: int| 0 <= t < j ==> #[trigger] keys@[t]@ == cores@[t].core_id@,
        decreases cores.len() - j,
    {
        keys.push(str_chars(cores[j].core_id.as_str()));
        j = j + 1;
    }
    let order = sorted_order(&keys);
    let ghost items = delta_views(cores@);
    assert(keys@.map_values(|k: Vec<char>| k@) =~= names_of(items));
    let mut sorted: Vec<CoreDelta> = Vec::new();
    let mut t: usize = 0;
    while t < order.len()
        invariant
            t <= order.len(),
            order@.len() == cores@.len(),
            items == delta_views(cores@),
            forall|q: int| 0 <= q < order@.len() ==> order@[q] < cores@.len(),
            delta_views(sorted@) == order@.take(t as int).map_values(|q: usize| items[q as int]),
        decreases order.len() - t,
    {
        let c = &cores[order[t]];
        let d = CoreDelta { core_id: c.core_id.clone(), total_delta: c.total_delta, idle_delta: c.idle_delta };
        let ghost sb = sorted@;
        assert(items[order@[t as int] as int] == (d.core_id@, d.total_delta as nat, d.idle_delta as nat));
        sorted.push(d);
        assert(delta_views(sorted@) =~= delta_views(sb).push(items[order@[t as int] as int]));
        assert(order@.take(t + 1).map_values(|q: usize| items[q as int]) =~= order@.take(
            t as int,
        ).map_values(|q: usize| items[q as int]).push(items[order@[t as int] as int]));
        t = t + 1;
    }
    assert(order@.take(order.len() as int) =~= order@);
    assert(stably_sorted(names_of(items), order@));
    CpuUsage { total, cores: sorted }
}

/// The counts that the network and the disks moved between two samples
/// (saturating at 0), and the interface of the later one.
pub struct TransferDeltas {
    pub rx_bytes: u64,
    pub tx_bytes: u64,
    pub read_sectors: u64,
    pub write_sectors: u64,
    pub interface_name: String,
}

/// The network bytes and disk sectors moved between `prev` and `current`.
pub fn compute_network_and_disk(prev: &RawStats, current: &RawStats) -> (r: TransferDeltas)
    ensures
        r.rx_bytes as nat == sat_sub(current.rx_bytes as nat, prev.rx_bytes as nat),
        r.tx_bytes as nat == sat_sub(current.tx_bytes as nat, prev.tx_bytes as nat),
        r.read_sectors as nat == sat_sub(
            current.disk_read_sectors as nat,
            prev.disk_read_sectors as nat,
        ),
        r.write_sectors as nat == sat_sub(
            current.disk_write_sectors as nat,
            prev.disk_write_sectors as nat,
        ),
        r.interface_name@ == current.interface_name@,
{
    TransferDeltas {
        rx_bytes: current.rx_bytes.saturating_sub(prev.rx_bytes),
        tx_bytes: current.tx_bytes.saturating_sub(prev.tx_bytes),
        read_sectors: current.disk_read_sectors.saturating_sub(prev.disk_read_sectors),
        write_sectors: current.disk_write_sectors.saturating_sub(prev.disk_write_sectors),
        interface_name: current.interface_name.clone(),
    }
}

} // verus!
