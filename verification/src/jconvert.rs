//! From the standard Jolokia bulk reply to a snapshot.

use vstd::prelude::*;
use vstd::string::StringExecFns;
use crate::clock::now_millis;
use crate::jolokia::{
    Json, JolokiaResponse, i64_or, json_get, json_i64, json_str, micros_or_zero, opt_json_i64,
    opt_json_micros, opt_json_str, str_or_empty, string_views,
};
use crate::model::{
    ClassMetrics, CpuMetrics, DeadlockInfo, GcAlgorithm, GcCollectorStats, JvmInfo, JvmSnapshot,
    MemoryPool, MemoryUsage, PoolType, ThreadSummary,
};
use crate::num::{parse_i64, parse_i64_spec};
use crate::prometheus::split_at_char;
use crate::text::{
    ascii_lower, chars_of, contains, is_ascii_text, has_prefix, index_of, index_of_from, lowercase, slice_of, starts_with,
    str_contains, str_eq, string_of, to_lower, trim, trimmed,
};

verus! {

// ───────────────────────────── pieces ─────────────────────────────

/// A number member, or `d`.
pub open spec fn int_field(v: Json, key: Seq<char>, d: i64) -> i64 {
    match opt_json_i64(json_get(v, key)) {
        Some(x) => x,
        None => d,
    }
}

/// A `MemoryUsage` object; a missing `max` is -1 (undefined).
pub open spec fn mem_of(v: Json) -> MemoryUsage {
    MemoryUsage {
        init: int_field(v, "init"@, 0),
        used: int_field(v, "used"@, 0),
        committed: int_field(v, "committed"@, 0),
        max: int_field(v, "max"@, -1i64),
    }
}

pub fn parse_mem(v: &Json) -> (r: MemoryUsage)
    ensures
        r == mem_of(*v),
{
    MemoryUsage {
        init: i64_or(v, "init", 0),
        used: i64_or(v, "used", 0),
        committed: i64_or(v, "committed", 0),
        max: i64_or(v, "max", -1),
    }
}

/// `str::trim_start_matches(p)`: every leading repetition of `p` dropped.
pub open spec fn strip_all(s: Seq<char>, p: Seq<char>) -> Seq<char>
    decreases s.len(),
{
    if p.len() > 0 && starts_with(s, p) {
        strip_all(s.skip(p.len() as int), p)
    } else {
        s
    }
}

/// The first piece starting with `name=`.
pub open spec fn first_name_piece(pieces: Seq<Seq<char>>) -> Option<Seq<char>>
    decreases pieces.len(),
{
    if pieces.len() == 0 {
        None
    } else if starts_with(pieces[0], "name="@) {
        Some(pieces[0])
    } else {
        first_name_piece(pieces.drop_first())
    }
}

/// The `name` property of an ObjectName (`domain:key=value,...`), or the
/// whole name when it has none.
pub open spec fn mbean_short(m: Seq<char>) -> Seq<char> {
    let k = index_of_from(m, ':', 0);
    let props = if k < m.len() {
        m.skip(k + 1)
    } else {
        m
    };
    match first_name_piece(split_at_char(props, ',')) {
        Some(p) => strip_all(p, "name="@),
        None => m,
    }
}

fn strip_all_exec(v: &[char], p: &[char]) -> (r: Vec<char>)
    ensures
        r@ == strip_all(v@, p@),
{
    let mut i: usize = 0;
    let n = v.len();
    if p.len() == 0 {
        let r = slice_of(v, 0, n);
        assert(r@ =~= v@);
        return r;
    }
    assert(v@.skip(0) =~= v@);
    while crate::text::matches_at(v, p, i)
        invariant
            i <= v@.len(),
            n == v@.len(),
            p@.len() > 0,
            strip_all(v@, p@) == strip_all(v@.skip(i as int), p@),
        decreases v@.len() - i,
    {
        proof {
            assert(v@.skip(i as int).take(p@.len() as int) =~= v@.subrange(i as int, i + p@.len()));
            assert(v@.skip(i as int).skip(p@.len() as int) =~= v@.skip(i + p@.len()));
        }
        i = i + p.len();
    }
    proof {
        if i + p@.len() <= v@.len() {
            assert(v@.skip(i as int).take(p@.len() as int) =~= v@.subrange(i as int, i + p@.len()));
        }
    }
    let r = slice_of(v, i, v.len());
    assert(r@ =~= v@.skip(i as int));
    r
}

/// The `name` property of an ObjectName, or the whole name.
pub fn extract_mbean_name(mbean: &str) -> (r: String)
    ensures
        r@ == mbean_short(mbean@),
{
    let v = chars_of(mbean);
    let k = index_of(&v, ':', 0);
    let start = if k < v.len() {
        k + 1
    } else {
        0
    };
    let ghost props = if k < v@.len() {
        v@.skip(k + 1)
    } else {
        v@
    };
    assert(props =~= v@.subrange(start as int, v@.len() as int));
    let name_eq = ['n', 'a', 'm', 'e', '='];
    assert(name_eq@ =~= "name="@) by {
        reveal_strlit("name=");
    }
    let ghost all = split_at_char(props, ',');
    assert(mbean_short(mbean@) == match first_name_piece(all) {
        Some(p) => strip_all(p, "name="@),
        None => mbean@,
    });
    let mut s = start;
    loop
        invariant
            start <= s <= v@.len(),
            v@ == mbean@,
            mbean_short(mbean@) == match first_name_piece(all) {
                Some(p) => strip_all(p, "name="@),
                None => mbean@,
            },
            all == split_at_char(props, ','),
            props == v@.subrange(start as int, v@.len() as int),
            name_eq@ == "name="@,
            first_name_piece(all) == first_name_piece(
                split_at_char(v@.subrange(s as int, v@.len() as int), ','),
            ),
        decreases v@.len() - s,
    {
        let ghost rest = v@.subrange(s as int, v@.len() as int);
        let c = index_of(&v, ',', s);
        proof {
            if c < v@.len() {
                crate::text::lemma_index_of_from_char(rest, ',', 0, c - s);
            } else {
                crate::text::lemma_index_of_from_char(rest, ',', 0, rest.len() as int);
            }
        }
        let piece = slice_of(&v, s, c);
        proof {
            assert(piece@ =~= rest.take(c - s));
            if c >= v@.len() {
                assert(rest.take(c - s) =~= rest);
            }
        }
        let ghost pieces = split_at_char(rest, ',');
        assert(pieces[0] == piece@);
        if has_prefix(&piece, &name_eq) {
            let stripped = strip_all_exec(&piece, &name_eq);
            return string_of(&stripped);
        }
        if c >= v.len() {
            assert(pieces == seq![rest]);
            assert(pieces.drop_first() =~= Seq::<Seq<char>>::empty());
            assert(!starts_with(pieces[0], "name="@));
            assert(first_name_piece(pieces) == first_name_piece(pieces.drop_first()));
            assert(first_name_piece(all) is None);
            return String::from_str(mbean);
        }
        proof {
            assert(rest.skip(c - s + 1) =~= v@.subrange(c + 1, v@.len() as int));
            assert(pieces.drop_first() =~= split_at_char(v@.subrange(c + 1, v@.len() as int), ','));
        }
        s = c + 1;
    }
}

/// The collector family named by the first collector whose lower-cased
/// name mentions one.
pub open spec fn collector_family(name: Seq<char>) -> Option<GcAlgorithm> {
    family_of_lower(lowercase(name))
}

/// The collector family a lower-case collector name mentions.
pub open spec fn family_of_lower(n: Seq<char>) -> Option<GcAlgorithm> {
    if contains(n, "zgc"@) {
        Some(GcAlgorithm::Zgc)
    } else if contains(n, "shenandoah"@) {
        Some(GcAlgorithm::Shenandoah)
    } else if contains(n, "g1"@) {
        Some(GcAlgorithm::G1)
    } else if contains(n, "parallel"@) || contains(n, "ps"@) {
        Some(GcAlgorithm::Parallel)
    } else {
        None
    }
}

pub open spec fn detect_gc_spec(cs: Seq<GcCollectorStats>) -> GcAlgorithm
    decreases cs.len(),
{
    if cs.len() == 0 {
        GcAlgorithm::Unknown
    } else {
        match collector_family(cs[0].name@) {
            Some(a) => a,
            None => detect_gc_spec(cs.drop_first()),
        }
    }
}

/// [`detect_gc_spec`] on collector names written in ASCII, where lower-casing
/// makes `A`–`Z` small.
pub open spec fn detect_gc_ascii(cs: Seq<GcCollectorStats>) -> GcAlgorithm
    decreases cs.len(),
{
    if cs.len() == 0 {
        GcAlgorithm::Unknown
    } else {
        match family_of_lower(ascii_lower(cs[0].name@)) {
            Some(a) => a,
            None => detect_gc_ascii(cs.drop_first()),
        }
    }
}

/// The GC algorithm the collector names show.
pub fn detect_gc(collectors: &[GcCollectorStats]) -> (r: GcAlgorithm)
    ensures
        r == detect_gc_spec(collectors@),
        (forall|i: int| 0 <= i < collectors@.len() ==> is_ascii_text(#[trigger] collectors@[i].name@))
            ==> r == detect_gc_ascii(collectors@),
{
    let ghost ascii = forall|i: int|
        0 <= i < collectors@.len() ==> is_ascii_text(#[trigger] collectors@[i].name@);
    let mut i: usize = 0;
    assert(collectors@.skip(0) =~= collectors@);
    while i < collectors.len()
        invariant
            i <= collectors@.len(),
            ascii == (forall|k: int|
                0 <= k < collectors@.len() ==> is_ascii_text(#[trigger] collectors@[k].name@)),
            detect_gc_spec(collectors@) == detect_gc_spec(collectors@.skip(i as int)),
            ascii ==> detect_gc_ascii(collectors@) == detect_gc_ascii(collectors@.skip(i as int)),
        decreases collectors@.len() - i,
    {
        proof {
            assert(collectors@.skip(i as int)[0] == collectors@[i as int]);
            assert(collectors@.skip(i as int).drop_first() =~= collectors@.skip(i + 1));
        }
        let n = to_lower(collectors[i].name.as_str());
        let t = n.as_str();
        if str_contains(t, "zgc") {
            return GcAlgorithm::Zgc;
        }
        if str_contains(t, "shenandoah") {
            return GcAlgorithm::Shenandoah;
        }
        if str_contains(t, "g1") {
            return GcAlgorithm::G1;
        }
        if str_contains(t, "parallel") || str_contains(t, "ps") {
            return GcAlgorithm::Parallel;
        }
        i += 1;
    }
    assert(collectors@.skip(i as int) =~= Seq::<GcCollectorStats>::empty());
    GcAlgorithm::Unknown
}

/// The number and unit of a size (`512m`, `2G`, `1024k`, `4096`).
pub open spec fn size_parts(s: Seq<char>) -> (Seq<char>, int) {
    let t = trim(s);
    if t.len() > 0 && (t.last() == 'g' || t.last() == 'G') {
        (t.drop_last(), 1_073_741_824)
    } else if t.len() > 0 && (t.last() == 'm' || t.last() == 'M') {
        (t.drop_last(), 1_048_576)
    } else if t.len() > 0 && (t.last() == 'k' || t.last() == 'K') {
        (t.drop_last(), 1024)
    } else {
        (t, 1)
    }
}

/// Bytes of a JVM size flag value; an unreadable number counts as 0.
pub open spec fn size_of_flag(s: Seq<char>) -> int {
    let (n, m) = size_parts(s);
    match parse_i64_spec(n) {
        Some(x) => x * m,
        None => 0,
    }
}

/// The size in bytes fits in `i64`.
pub open spec fn size_ok(s: Seq<char>) -> bool {
    i64::MIN <= size_of_flag(s) <= i64::MAX
}

/// Bytes of a JVM size flag value (`-Xmx512m` gives `512m`).
pub fn parse_size(s: &str) -> (r: i64)
    requires
        size_ok(s@),
    ensures
        r == size_of_flag(s@),
{
    let v = chars_of(s);
    let t = trimmed(&v);
    let n = t.len();
    let (digits, m): (Vec<char>, i64) = if n > 0 && (t[n - 1] == 'g' || t[n - 1] == 'G') {
        (slice_of(&t, 0, n - 1), 1_073_741_824)
    } else if n > 0 && (t[n - 1] == 'm' || t[n - 1] == 'M') {
        (slice_of(&t, 0, n - 1), 1_048_576)
    } else if n > 0 && (t[n - 1] == 'k' || t[n - 1] == 'K') {
        (slice_of(&t, 0, n - 1), 1024)
    } else {
        (slice_of(&t, 0, n), 1)
    };
    proof {
        if n > 0 {
            assert(t@.subrange(0, n - 1) =~= t@.drop_last());
        }
        assert(t@.subrange(0, n as int) =~= t@);
    }
    match parse_i64(&digits) {
        Some(x) => x * m,
        None => 0,
    }
}

/// `-Xmx` and `-Xms` sizes of the arguments (the last of each wins).
pub open spec fn heap_flags(args: Seq<Seq<char>>, max: Option<i64>, init: Option<i64>) -> (
    Option<i64>,
    Option<i64>,
)
    decreases args.len(),
{
    if args.len() == 0 {
        (max, init)
    } else {
        let a = args[0];
        if starts_with(a, "-Xmx"@) {
            heap_flags(args.drop_first(), Some(size_of_flag(a.skip(4)) as i64), init)
        } else if starts_with(a, "-Xms"@) {
            heap_flags(args.drop_first(), max, Some(size_of_flag(a.skip(4)) as i64))
        } else {
            heap_flags(args.drop_first(), max, init)
        }
    }
}

/// Each `-Xmx`/`-Xms` size fits in `i64` as bytes.
pub open spec fn heap_flags_ok(args: Seq<Seq<char>>) -> bool {
    forall|i: int|
        0 <= i < args.len() ==> ((starts_with(#[trigger] args[i], "-Xmx"@) || starts_with(
            args[i],
            "-Xms"@,
        )) ==> size_ok(args[i].skip(4)))
}

/// Sets the heap bounds from the `-Xmx` and `-Xms` arguments.
pub fn parse_heap_flags(info: &mut JvmInfo)
    requires
        heap_flags_ok(string_views(old(info).input_arguments@)),
    ensures
        (final(info).max_heap_bytes, final(info).initial_heap_bytes) == heap_flags(
            string_views(old(info).input_arguments@),
            old(info).max_heap_bytes,
            old(info).initial_heap_bytes,
        ),
        final(info).input_arguments == old(info).input_arguments,
        final(info).vm_name == old(info).vm_name,
        final(info).vm_vendor == old(info).vm_vendor,
        final(info).vm_version == old(info).vm_version,
        final(info).spec_version == old(info).spec_version,
        final(info).uptime_ms == old(info).uptime_ms,
        final(info).gc_algorithm == old(info).gc_algorithm,
{
    let xmx = ['-', 'X', 'm', 'x'];
    let xms = ['-', 'X', 'm', 's'];
    assert(xmx@ =~= "-Xmx"@) by {
        reveal_strlit("-Xmx");
    }
    assert(xms@ =~= "-Xms"@) by {
        reveal_strlit("-Xms");
    }
    let ghost args = string_views(info.input_arguments@);
    let mut i: usize = 0;
    assert(args.skip(0) =~= args);
    while i < info.input_arguments.len()
        invariant
            i <= args.len(),
            args == string_views(info.input_arguments@),
            info.input_arguments == old(info).input_arguments,
            info.vm_name == old(info).vm_name,
            info.vm_vendor == old(info).vm_vendor,
            info.vm_version == old(info).vm_version,
            info.spec_version == old(info).spec_version,
            info.uptime_ms == old(info).uptime_ms,
            info.gc_algorithm == old(info).gc_algorithm,
            heap_flags_ok(args),
            heap_flags(args, old(info).max_heap_bytes, old(info).initial_heap_bytes) == heap_flags(
                args.skip(i as int),
                info.max_heap_bytes,
                info.initial_heap_bytes,
            ),
            xmx@ == "-Xmx"@,
            xms@ == "-Xms"@,
        decreases args.len() - i,
    {
        proof {
            assert(args.skip(i as int)[0] == args[i as int]);
            assert(args[i as int] == info.input_arguments@[i as int]@);
            assert(args.skip(i as int).drop_first() =~= args.skip(i + 1));
        }
        let a = chars_of(info.input_arguments[i].as_str());
        if has_prefix(&a, &xmx) {
            let rest = string_of(&slice_of(&a, 4, a.len()));
            assert(rest@ =~= a@.skip(4));
            info.max_heap_bytes = Some(parse_size(rest.as_str()));
        } else if has_prefix(&a, &xms) {
            let rest = string_of(&slice_of(&a, 4, a.len()));
            assert(rest@ =~= a@.skip(4));
            info.initial_heap_bytes = Some(parse_size(rest.as_str()));
        }
        i += 1;
    }
    assert(args.skip(i as int) =~= Seq::<Seq<char>>::empty());
}

// ───────────────────────────── the snapshot ─────────────────────────────

pub open spec fn zero_mem() -> MemoryUsage {
    MemoryUsage { init: 0, used: 0, committed: 0, max: 0 }
}

pub open spec fn micros_field(v: Json, key: Seq<char>) -> i64 {
    match opt_json_micros(json_get(v, key)) {
        Some(x) => x as i64,
        None => 0,
    }
}

pub open spec fn str_field(v: Json, key: Seq<char>) -> Seq<char> {
    match opt_json_str(json_get(v, key)) {
        Some(s) => s,
        None => Seq::empty(),
    }
}

pub open spec fn object_members(v: Json) -> Seq<(String, Json)> {
    match v {
        Json::Object(m) => m@,
        _ => Seq::empty(),
    }
}

/// The string items of an array (others skipped).
pub open spec fn str_items(items: Seq<Json>) -> Seq<Seq<char>>
    decreases items.len(),
{
    if items.len() == 0 {
        Seq::empty()
    } else {
        let prev = str_items(items.drop_last());
        match json_str(items.last()) {
            Some(s) => prev.push(s),
            None => prev,
        }
    }
}

/// The integer items of an array (others skipped).
pub open spec fn int_items(items: Seq<Json>) -> Seq<i64>
    decreases items.len(),
{
    if items.len() == 0 {
        Seq::empty()
    } else {
        let prev = int_items(items.drop_last());
        match json_i64(items.last()) {
            Some(x) => prev.push(x),
            None => prev,
        }
    }
}

pub open spec fn array_items(v: Option<Json>) -> Option<Seq<Json>> {
    match v {
        Some(Json::Array(a)) => Some(a@),
        _ => None,
    }
}

pub open spec fn collector_view(c: GcCollectorStats) -> (Seq<char>, i64, i64) {
    (c.name@, c.collection_count, c.collection_time_ms)
}

pub open spec fn collectors_spec(members: Seq<(String, Json)>) -> Seq<(Seq<char>, i64, i64)> {
    members.map_values(
        |p: (String, Json)|
            (
                mbean_short(p.0@),
                int_field(p.1, "CollectionCount"@, 0),
                int_field(p.1, "CollectionTime"@, 0),
            ),
    )
}

pub open spec fn pool_type_of(attrs: Json) -> PoolType {
    match opt_json_str(json_get(attrs, "Type"@)) {
        Some(t) => if t == "HEAP"@ {
            PoolType::Heap
        } else if t == "NON_HEAP"@ {
            PoolType::NonHeap
        } else {
            PoolType::Unknown
        },
        None => PoolType::Unknown,
    }
}

pub open spec fn pool_view(p: MemoryPool) -> (Seq<char>, PoolType, MemoryUsage, Option<MemoryUsage>) {
    (p.name@, p.pool_type, p.usage, p.collection_usage)
}

pub open spec fn pools_spec(members: Seq<(String, Json)>) -> Seq<
    (Seq<char>, PoolType, MemoryUsage, Option<MemoryUsage>),
> {
    members.map_values(
        |p: (String, Json)|
            (
                mbean_short(p.0@),
                pool_type_of(p.1),
                match json_get(p.1, "Usage"@) {
                    Some(u) => mem_of(u),
                    None => zero_mem(),
                },
                match json_get(p.1, "CollectionUsage"@) {
                    Some(u) => if u is Null {
                        None
                    } else {
                        Some(mem_of(u))
                    },
                    None => None,
                },
            ),
    )
}

pub open spec fn args_of(v: Json) -> Seq<Seq<char>> {
    match array_items(json_get(v, "InputArguments"@)) {
        Some(items) => str_items(items),
        None => Seq::empty(),
    }
}

/// The `-Xmx`/`-Xms` sizes of the runtime reply fit in `i64`.
pub open spec fn bulk_ok(rs: Seq<JolokiaResponse>) -> bool {
    rs.len() >= 8 && rs[5].status == 200 ==> heap_flags_ok(args_of(rs[5].value))
}

/// The snapshot of the standard bulk reply, taken at `now`: each part
/// from its reply when that reply succeeded, empty otherwise.
pub open spec fn bulk_snapshot_ok(s: JvmSnapshot, rs: Seq<JolokiaResponse>, now: int) -> bool {
    let full = rs.len() >= 8;
    let ok = |k: int| full && rs[k].status == 200;
    let collectors = if ok(2) {
        collectors_spec(object_members(rs[2].value))
    } else {
        Seq::empty()
    };
    &&& s.timestamp == now
    &&& s.heap == (if ok(0) {
        match json_get(rs[0].value, "HeapMemoryUsage"@) {
            Some(h) => mem_of(h),
            None => zero_mem(),
        }
    } else {
        zero_mem()
    })
    &&& s.non_heap == (if ok(0) {
        match json_get(rs[0].value, "NonHeapMemoryUsage"@) {
            Some(h) => mem_of(h),
            None => zero_mem(),
        }
    } else {
        zero_mem()
    })
    &&& s.thread_summary.live == (if ok(1) { int_field(rs[1].value, "ThreadCount"@, 0) } else { 0 })
    &&& s.thread_summary.daemon == (if ok(1) {
        int_field(rs[1].value, "DaemonThreadCount"@, 0)
    } else {
        0
    })
    &&& s.thread_summary.peak == (if ok(1) { int_field(rs[1].value, "PeakThreadCount"@, 0) } else { 0 })
    &&& s.thread_summary.state_counts@.len() == 0
    &&& s.gc_collectors@.map_values(|c: GcCollectorStats| collector_view(c)) == collectors
    &&& s.memory_pools@.map_values(|p: MemoryPool| pool_view(p)) == (if ok(3) {
        pools_spec(object_members(rs[3].value))
    } else {
        Seq::empty()
    })
    &&& s.cpu == (if ok(4) {
        CpuMetrics {
            process_cpu: micros_field(rs[4].value, "ProcessCpuLoad"@),
            system_cpu: micros_field(rs[4].value, "SystemCpuLoad"@),
            available_processors: int_field(rs[4].value, "AvailableProcessors"@, 0) as i32,
            system_load_average_1m: micros_field(rs[4].value, "SystemLoadAverage"@),
        }
    } else {
        CpuMetrics { process_cpu: 0, system_cpu: 0, available_processors: 0, system_load_average_1m: 0 }
    })
    &&& (if ok(5) {
        let v = rs[5].value;
        let flags = heap_flags(args_of(v), None, None);
        &&& s.jvm_info.vm_name@ == str_field(v, "VmName"@)
        &&& s.jvm_info.vm_vendor@ == str_field(v, "VmVendor"@)
        &&& s.jvm_info.vm_version@ == str_field(v, "VmVersion"@)
        &&& s.jvm_info.spec_version@ == str_field(v, "SpecVersion"@)
        &&& s.jvm_info.uptime_ms == int_field(v, "Uptime"@, 0)
        &&& string_views(s.jvm_info.input_arguments@) == args_of(v)
        &&& s.jvm_info.max_heap_bytes == flags.0
        &&& s.jvm_info.initial_heap_bytes == flags.1
        &&& s.jvm_info.gc_algorithm == detect_gc_spec(s.gc_collectors@)
    } else {
        &&& s.jvm_info.vm_name@.len() == 0 && s.jvm_info.vm_vendor@.len() == 0
        &&& s.jvm_info.vm_version@.len() == 0 && s.jvm_info.spec_version@.len() == 0
        &&& s.jvm_info.uptime_ms == 0 && s.jvm_info.input_arguments@.len() == 0
        &&& s.jvm_info.gc_algorithm == GcAlgorithm::Unknown
        &&& s.jvm_info.max_heap_bytes is None && s.jvm_info.initial_heap_bytes is None
    })
    &&& s.classes == (if ok(6) {
        ClassMetrics {
            loaded: int_field(rs[6].value, "LoadedClassCount"@, 0),
            total_loaded: int_field(rs[6].value, "TotalLoadedClassCount"@, 0),
            unloaded: int_field(rs[6].value, "UnloadedClassCount"@, 0),
        }
    } else {
        ClassMetrics { loaded: 0, total_loaded: 0, unloaded: 0 }
    })
    &&& (match (if ok(7) && !(rs[7].value is Null) {
        match rs[7].value {
            Json::Array(a) => int_items(a@),
            _ => Seq::empty(),
        }
    } else {
        Seq::empty()
    }) {
        ids => if ids.len() > 0 {
            &&& s.deadlocks@.len() == 1
            &&& s.deadlocks@[0].thread_ids@ == ids
            &&& s.deadlocks@[0].threads@.len() == 0
            &&& s.deadlocks@[0].detected_at == now
        } else {
            s.deadlocks@.len() == 0
        },
    })
    &&& s.memory_pools@.len() == (if ok(3) { object_members(rs[3].value).len() } else { 0 })
    &&& s.recent_gc_events@.len() == 0
    &&& s.threads@.len() == 0
    &&& s.executors@.len() == 0
    &&& s.caches@.len() == 0
    &&& s.hikari is None
    &&& s.tomcat is None
}

fn mem_member(v: &Json, key: &str) -> (r: MemoryUsage)
    ensures
        r == (match json_get(*v, key@) {
            Some(h) => mem_of(h),
            None => zero_mem(),
        }),
{
    match v.get(key) {
        Some(h) => parse_mem(h),
        None => MemoryUsage { init: 0, used: 0, committed: 0, max: 0 },
    }
}

fn collectors_of(v: &Json) -> (r: Vec<GcCollectorStats>)
    ensures
        r@.map_values(|c: GcCollectorStats| collector_view(c)) == collectors_spec(object_members(*v)),
{
    let mut out: Vec<GcCollectorStats> = Vec::new();
    match v {
        Json::Object(m) => {
            let mut i: usize = 0;
            while i < m.len()
                invariant
                    i <= m@.len(),
                    out@.map_values(|c: GcCollectorStats| collector_view(c)) == collectors_spec(
                        m@.take(i as int),
                    ),
                decreases m@.len() - i,
            {
                let ghost before = out@;
                let (name, attrs) = &m[i];
                out.push(
                    GcCollectorStats {
                        name: extract_mbean_name(name.as_str()),
                        collection_count: i64_or(attrs, "CollectionCount", 0),
                        collection_time_ms: i64_or(attrs, "CollectionTime", 0),
                    },
                );
                proof {
                    assert(out@.map_values(|c: GcCollectorStats| collector_view(c)) =~= before.map_values(
                        |c: GcCollectorStats| collector_view(c),
                    ).push(collector_view(out@.last())));
                    assert(m@.take(i + 1) =~= m@.take(i as int).push(m@[i as int]));
                    assert(collectors_spec(m@.take(i + 1)) =~= collectors_spec(m@.take(i as int)).push(
                        collector_view(out@.last()),
                    ));
                }
                i += 1;
            }
            assert(m@.take(m@.len() as int) =~= m@);
        },
        _ => {
            assert(out@.map_values(|c: GcCollectorStats| collector_view(c)) =~= collectors_spec(
                object_members(*v),
            ));
        },
    }
    out
}

fn pools_of(v: &Json) -> (r: Vec<MemoryPool>)
    ensures
        r@.map_values(|p: MemoryPool| pool_view(p)) == pools_spec(object_members(*v)),
        r@.len() == object_members(*v).len(),
{
    let mut out: Vec<MemoryPool> = Vec::new();
    match v {
        Json::Object(m) => {
            let mut i: usize = 0;
            while i < m.len()
                invariant
                    i <= m@.len(),
                    out@.len() == i,
                    out@.map_values(|p: MemoryPool| pool_view(p)) == pools_spec(m@.take(i as int)),
                decreases m@.len() - i,
            {
                let ghost before = out@;
                let (name, attrs) = &m[i];
                let pool_type = match attrs.get("Type") {
                    Some(t) => match t.as_str() {
                        Some(s) => if str_eq(s, "HEAP") {
                            PoolType::Heap
                        } else if str_eq(s, "NON_HEAP") {
                            PoolType::NonHeap
                        } else {
                            PoolType::Unknown
                        },
                        None => PoolType::Unknown,
                    },
                    None => PoolType::Unknown,
                };
                let usage = mem_member(attrs, "Usage");
                let collection_usage = match attrs.get("CollectionUsage") {
                    Some(u) => if u.is_null() {
                        None
                    } else {
                        Some(parse_mem(u))
                    },
                    None => None,
                };
                out.push(
                    MemoryPool {
                        name: extract_mbean_name(name.as_str()),
                        pool_type,
                        usage,
                        collection_usage,
                    },
                );
                proof {
                    assert(out@.map_values(|p: MemoryPool| pool_view(p)) =~= before.map_values(
                        |p: MemoryPool| pool_view(p),
                    ).push(pool_view(out@.last())));
                    assert(m@.take(i + 1) =~= m@.take(i as int).push(m@[i as int]));
                    assert(pools_spec(m@.take(i + 1)) =~= pools_spec(m@.take(i as int)).push(
                        pool_view(out@.last()),
                    ));
                }
                i += 1;
            }
            assert(m@.take(m@.len() as int) =~= m@);
        },
        _ => {
            assert(out@.map_values(|p: MemoryPool| pool_view(p)) =~= pools_spec(object_members(*v)));
        },
    }
    out
}

fn strings_of(items: &Vec<Json>) -> (r: Vec<String>)
    ensures
        string_views(r@) == str_items(items@),
{
    let mut out: Vec<String> = Vec::new();
    let mut i: usize = 0;
    while i < items.len()
        invariant
            i <= items@.len(),
            string_views(out@) == str_items(items@.take(i as int)),
        decreases items@.len() - i,
    {
        proof {
            assert(items@.take(i + 1).drop_last() =~= items@.take(i as int));
            assert(items@.take(i + 1).last() == items@[i as int]);
        }
        let ghost before = out@;
        match items[i].as_str() {
            Some(s) => {
                out.push(String::from_str(s));
                assert(string_views(out@) =~= string_views(before).push(s@));
            },
            None => {},
        }
        i += 1;
    }
    assert(items@.take(items@.len() as int) =~= items@);
    out
}

fn ints_of(items: &Vec<Json>) -> (r: Vec<i64>)
    ensures
        r@ == int_items(items@),
{
    let mut out: Vec<i64> = Vec::new();
    let mut i: usize = 0;
    while i < items.len()
        invariant
            i <= items@.len(),
            out@ == int_items(items@.take(i as int)),
        decreases items@.len() - i,
    {
        proof {
            assert(items@.take(i + 1).drop_last() =~= items@.take(i as int));
            assert(items@.take(i + 1).last() == items@[i as int]);
        }
        match items[i].as_i64() {
            Some(x) => {
                out.push(x);
            },
            None => {},
        }
        i += 1;
    }
    assert(items@.take(items@.len() as int) =~= items@);
    out
}

fn args_exec(v: &Json) -> (r: Vec<String>)
    ensures
        string_views(r@) == args_of(*v),
{
    match v.get("InputArguments") {
        Some(Json::Array(a)) => strings_of(a),
        _ => {
            let r: Vec<String> = Vec::new();
            assert(string_views(r@) =~= Seq::<Seq<char>>::empty());
            r
        },
    }
}

/// The snapshot of the standard bulk reply (see
/// [`crate::jolokia::BulkRequestBuilder::standard`]), taken at `now` (ms
/// since the epoch). A reply with fewer than eight parts gives an empty
/// snapshot.
pub fn bulk_to_snapshot_at(responses: &[JolokiaResponse], now: i64) -> (snap: JvmSnapshot)
    requires
        bulk_ok(responses@),
    ensures
        bulk_snapshot_ok(snap, responses@, now as int),
{
    let mut snap = JvmSnapshot::default();
    snap.timestamp = now;
    if responses.len() < 8 {
        assert(snap.gc_collectors@.map_values(|c: GcCollectorStats| collector_view(c)) =~= Seq::<
            (Seq<char>, i64, i64),
        >::empty());
        assert(snap.memory_pools@.map_values(|p: MemoryPool| pool_view(p)) =~= Seq::<
            (Seq<char>, PoolType, MemoryUsage, Option<MemoryUsage>),
        >::empty());
        return snap;
    }
    if responses[0].is_ok() {
        snap.heap = mem_member(&responses[0].value, "HeapMemoryUsage");
        snap.non_heap = mem_member(&responses[0].value, "NonHeapMemoryUsage");
    }
    if responses[1].is_ok() {
        let v = &responses[1].value;
        snap.thread_summary = ThreadSummary {
            live: i64_or(v, "ThreadCount", 0),
            daemon: i64_or(v, "DaemonThreadCount", 0),
            peak: i64_or(v, "PeakThreadCount", 0),
            state_counts: Vec::new(),
        };
    }
    if responses[2].is_ok() {
        snap.gc_collectors = collectors_of(&responses[2].value);
    } else {
        assert(snap.gc_collectors@.map_values(|c: GcCollectorStats| collector_view(c)) =~= Seq::<
            (Seq<char>, i64, i64),
        >::empty());
    }
    if responses[3].is_ok() {
        snap.memory_pools = pools_of(&responses[3].value);
    } else {
        assert(snap.memory_pools@.map_values(|p: MemoryPool| pool_view(p)) =~= Seq::<
            (Seq<char>, PoolType, MemoryUsage, Option<MemoryUsage>),
        >::empty());
    }
    if responses[4].is_ok() {
        let v = &responses[4].value;
        snap.cpu = CpuMetrics {
            process_cpu: micros_or_zero(v, "ProcessCpuLoad"),
            system_cpu: micros_or_zero(v, "SystemCpuLoad"),
            available_processors: i64_or(v, "AvailableProcessors", 0) as i32,
            system_load_average_1m: micros_or_zero(v, "SystemLoadAverage"),
        };
    }
    if responses[5].is_ok() {
        let v = &responses[5].value;
        let mut info = JvmInfo {
            vm_name: str_or_empty(v, "VmName"),
            vm_vendor: str_or_empty(v, "VmVendor"),
            vm_version: str_or_empty(v, "VmVersion"),
            spec_version: str_or_empty(v, "SpecVersion"),
            uptime_ms: i64_or(v, "Uptime", 0),
            input_arguments: args_exec(v),
            gc_algorithm: detect_gc(snap.gc_collectors.as_slice()),
            max_heap_bytes: None,
            initial_heap_bytes: None,
        };
        parse_heap_flags(&mut info);
        snap.jvm_info = info;
    }
    if responses[6].is_ok() {
        let v = &responses[6].value;
        snap.classes = ClassMetrics {
            loaded: i64_or(v, "LoadedClassCount", 0),
            total_loaded: i64_or(v, "TotalLoadedClassCount", 0),
            unloaded: i64_or(v, "UnloadedClassCount", 0),
        };
    }
    if responses[7].is_ok() && !responses[7].value.is_null() {
        match &responses[7].value {
            Json::Array(a) => {
                let ids = ints_of(a);
                if ids.len() > 0 {
                    snap.deadlocks.push(
                        DeadlockInfo { thread_ids: ids, threads: Vec::new(), detected_at: now },
                    );
                }
            },
            _ => {},
        }
    }
    snap
}

/// The snapshot of the standard bulk reply, stamped with the wall clock.
pub fn bulk_to_snapshot(responses: &[JolokiaResponse]) -> (snap: JvmSnapshot)
    requires
        bulk_ok(responses@),
    ensures
        bulk_snapshot_ok(snap, responses@, snap.timestamp as int),
{
    bulk_to_snapshot_at(responses, now_millis())
}

/// Whether the bytes of a JVM size flag value fit in `i64`.
pub fn size_fits(s: &str) -> (r: bool)
    ensures
        r == size_ok(s@),
{
    let v = chars_of(s);
    let t = trimmed(&v);
    let n = t.len();
    let (digits, m): (Vec<char>, i128) = if n > 0 && (t[n - 1] == 'g' || t[n - 1] == 'G') {
        (slice_of(&t, 0, n - 1), 1_073_741_824)
    } else if n > 0 && (t[n - 1] == 'm' || t[n - 1] == 'M') {
        (slice_of(&t, 0, n - 1), 1_048_576)
    } else if n > 0 && (t[n - 1] == 'k' || t[n - 1] == 'K') {
        (slice_of(&t, 0, n - 1), 1024)
    } else {
        (slice_of(&t, 0, n), 1)
    };
    proof {
        if n > 0 {
            assert(t@.subrange(0, n - 1) =~= t@.drop_last());
        }
        assert(t@.subrange(0, n as int) =~= t@);
    }
    match parse_i64(&digits) {
        Some(x) => {
            let b = x as i128 * m;
            i64::MIN as i128 <= b && b <= i64::MAX as i128
        },
        None => true,
    }
}

/// Whether the `-Xmx`/`-Xms` sizes of a standard bulk reply fit in `i64`,
/// as reading the reply needs.
pub fn bulk_fits(rs: &[JolokiaResponse]) -> (r: bool)
    ensures
        r == bulk_ok(rs@),
{
    if rs.len() < 8 || rs[5].status != 200 {
        return true;
    }
    let args = args_exec(&rs[5].value);
    let ghost av = string_views(args@);
    let xmx = chars_of("-Xmx");
    let xms = chars_of("-Xms");
    proof {
        reveal_strlit("-Xmx");
        reveal_strlit("-Xms");
    }
    let mut i: usize = 0;
    while i < args.len()
        invariant
            rs@.len() >= 8,
            rs@[5].status == 200,
            xmx@.len() == 4,
            xms@.len() == 4,
            av == string_views(args@),
            av == args_of(rs@[5].value),
            xmx@ == "-Xmx"@,
            xms@ == "-Xms"@,
            i <= args@.len(),
            forall|k: int|
                0 <= k < i ==> ((starts_with(#[trigger] av[k], "-Xmx"@) || starts_with(av[k], "-Xms"@))
                    ==> size_ok(av[k].skip(4))),
        decreases args@.len() - i,
    {
        let a = chars_of(args[i].as_str());
        assert(a@ == av[i as int]);
        if has_prefix(&a, &xmx) || has_prefix(&a, &xms) {
            let rest = slice_of(&a, 4, a.len());
            assert(rest@ =~= a@.skip(4));
            let rs_text = string_of(&rest);
            if !size_fits(rs_text.as_str()) {
                assert(!heap_flags_ok(av)) by {
                    assert(starts_with(av[i as int], "-Xmx"@) || starts_with(av[i as int], "-Xms"@));
                }
                return false;
            }
        }
        i += 1;
    }
    true
}

/// The last argument of `args` that starts with `p`.
pub open spec fn last_with_prefix(args: Seq<Seq<char>>, p: Seq<char>) -> Option<Seq<char>>
    decreases args.len(),
{
    if args.len() == 0 {
        None
    } else {
        match last_with_prefix(args.drop_first(), p) {
            Some(a) => Some(a),
            None => if starts_with(args[0], p) {
                Some(args[0])
            } else {
                None
            },
        }
    }
}

/// The heap bounds come from the JVM arguments flag by flag: the maximum
/// from the last `-Xmx` argument and the initial size from the last `-Xms`
/// argument, each the size written after the four-character flag; a bound
/// with no such argument keeps its earlier value.
pub proof fn lemma_heap_flags_last(args: Seq<Seq<char>>, max: Option<i64>, init: Option<i64>)
    ensures
        heap_flags(args, max, init).0 == match last_with_prefix(args, "-Xmx"@) {
            Some(a) => Some(size_of_flag(a.skip(4)) as i64),
            None => max,
        },
        heap_flags(args, max, init).1 == match last_with_prefix(args, "-Xms"@) {
            Some(a) => Some(size_of_flag(a.skip(4)) as i64),
            None => init,
        },
    decreases args.len(),
{
    reveal_strlit("-Xmx");
    reveal_strlit("-Xms");
    if args.len() > 0 {
        let a = args[0];
        let rest = args.drop_first();
        if starts_with(a, "-Xmx"@) {
            assert(a[3] == "-Xmx"@[3]);
            assert(!starts_with(a, "-Xms"@));
            lemma_heap_flags_last(rest, Some(size_of_flag(a.skip(4)) as i64), init);
        } else if starts_with(a, "-Xms"@) {
            lemma_heap_flags_last(rest, max, Some(size_of_flag(a.skip(4)) as i64));
        } else {
            lemma_heap_flags_last(rest, max, init);
        }
    }
}

/// A bulk reading's heap figures and heap bounds, field by field: the heap
/// usage is the `used`, `committed` and `max` members (`max` -1 when
/// absent) of the Memory MBean's `HeapMemoryUsage`, and `-Xmx`/`-Xms` come
/// from the last such runtime argument each.
pub proof fn lemma_bulk_heap(s: JvmSnapshot, rs: Seq<JolokiaResponse>, now: int)
    requires
        bulk_snapshot_ok(s, rs, now),
        rs.len() >= 8,
    ensures
        rs[0].status == 200 ==> match json_get(rs[0].value, "HeapMemoryUsage"@) {
            Some(h) => {
                &&& s.heap.used == int_field(h, "used"@, 0)
                &&& s.heap.committed == int_field(h, "committed"@, 0)
                &&& s.heap.max == int_field(h, "max"@, -1i64)
            },
            None => s.heap.used == 0 && s.heap.max == 0,
        },
        rs[5].status == 200 ==> {
            &&& s.jvm_info.max_heap_bytes == match last_with_prefix(args_of(rs[5].value), "-Xmx"@) {
                Some(a) => Some(size_of_flag(a.skip(4)) as i64),
                None => None::<i64>,
            }
            &&& s.jvm_info.initial_heap_bytes == match last_with_prefix(
                args_of(rs[5].value),
                "-Xms"@,
            ) {
                Some(a) => Some(size_of_flag(a.skip(4)) as i64),
                None => None::<i64>,
            }
        },
{
    lemma_heap_flags_last(args_of(rs[5].value), None, None);
}

} // verus!
