//! The system context that enriches an activity log entry, and the text
//! renderings handed to the analysis prompt: the context block and the
//! recent-activity history.

use vstd::prelude::*;
use vstd::string::{StrSliceExecFns, StringExecFns};
use vstd::utf8::decode_utf8;
use crate::config::lemma_ascii_valid_utf8;
use crate::num::{dec_bytes, push_dec_u64};
use crate::screen::WindowBounds;
use crate::tracker::{WindowSwitchEvent, WindowSwitchStats};

verus! {

/// How many top-usage apps the context text lists.
pub const CONTEXT_TOP_APPS: usize = 3;

/// How many recent switches the context text lists.
pub const CONTEXT_RECENT_SWITCHES: usize = 3;

/// One process's share of the CPU, in tenths of a percent.
#[derive(Clone, Debug, PartialEq)]
pub struct ProcessLoad {
    pub name: String,
    pub cpu_tenths_percent: u64,
}

/// Host facts recorded with a log entry.
#[derive(Clone, Debug, PartialEq)]
pub struct SystemInfo {
    pub hostname: Option<String>,
    pub username: Option<String>,
    pub platform: Option<String>,
}

/// The focused window, enriched with tracking data.
#[derive(Clone, Debug, PartialEq)]
pub struct ActiveWindowInfo {
    pub app_name: Option<String>,
    pub window_title: Option<String>,
    pub bounds: Option<WindowBounds>,
    pub timestamp: Option<u64>,
    pub process_id: Option<u32>,
    pub switch_stats: Option<WindowSwitchStats>,
    pub recent_switches: Option<Vec<WindowSwitchEvent>>,
}

/// Everything the context block renders.
#[derive(Clone, Debug, PartialEq)]
pub struct SystemContext {
    pub username: String,
    pub hostname: Option<String>,
    pub os_name: Option<String>,
    pub os_version: Option<String>,
    pub processes_top: Vec<ProcessLoad>,
    pub active_window: Option<ActiveWindowInfo>,
}

/// One already-loaded activity log entry, ready for rendering: the time as
/// text and the description.
#[derive(Clone, Debug, PartialEq)]
pub struct ActivityEntry {
    pub time_text: String,
    pub description: String,
}

/// The decimal digits of `n`, as characters.
pub open spec fn spec_u64_chars(n: u64) -> Seq<char> {
    decode_utf8(dec_bytes(n as nat))
}

/// A value in tenths rendered with one decimal place.
pub open spec fn spec_tenths_chars(v: u64) -> Seq<char> {
    spec_u64_chars(v / 10) + "."@ + spec_u64_chars(v % 10)
}

/// The decimal digits of `n` as a string.
pub fn u64_to_string(n: u64) -> (s: String)
    ensures
        s@ == spec_u64_chars(n),
{
    let mut digits: Vec<u8> = Vec::new();
    push_dec_u64(&mut digits, n);
    proof {
        crate::num::lemma_dec_bytes_digits(n as nat);
        lemma_ascii_valid_utf8(digits@);
    }
    match crate::codec::bytes_to_string(digits) {
        Some(s) => s,
        None => {
            proof {
                assert(false);
            }
            String::new()
        },
    }
}

/// Appends a value in tenths with one decimal place.
fn push_tenths(out: &mut String, v: u64)
    ensures
        final(out)@ == old(out)@ + spec_tenths_chars(v),
{
    let whole = u64_to_string(v / 10);
    out.append(whole.as_str());
    out.append(".");
    let frac = u64_to_string(v % 10);
    out.append(frac.as_str());
    assert(final(out)@ =~= old(out)@ + spec_tenths_chars(v));
}

pub open spec fn spec_opt_text(o: Option<String>, fallback: Seq<char>) -> Seq<char> {
    match o {
        Some(s) => s@,
        None => fallback,
    }
}

/// The line the context block writes for one ranked app.
pub open spec fn spec_app_line(app: (String, u64)) -> Seq<char> {
    "    * "@ + app.0@ + ": "@ + spec_tenths_chars(app.1 / 6000) + "分钟\n"@
}

pub open spec fn spec_app_lines(apps: Seq<(String, u64)>) -> Seq<char>
    decreases apps.len(),
{
    if apps.len() == 0 {
        Seq::empty()
    } else {
        spec_app_lines(apps.drop_last()) + spec_app_line(apps.last())
    }
}

/// The line the context block writes for one recent switch.
pub open spec fn spec_switch_line(ev: WindowSwitchEvent) -> Seq<char> {
    "  - "@ + spec_opt_text(ev.from_app, "未知"@) + " -> "@ + spec_opt_text(
        ev.to_app,
        "未知"@,
    ) + " (停留"@ + spec_tenths_chars(ev.duration_ms / 100) + "秒)\n"@
}

pub open spec fn spec_switch_lines(evs: Seq<WindowSwitchEvent>) -> Seq<char>
    decreases evs.len(),
{
    if evs.len() == 0 {
        Seq::empty()
    } else {
        spec_switch_lines(evs.drop_last()) + spec_switch_line(evs.last())
    }
}

/// The line the context block writes for one busy process.
pub open spec fn spec_process_line(p: ProcessLoad) -> Seq<char> {
    "  - "@ + p.name@ + " | cpu: "@ + spec_tenths_chars(p.cpu_tenths_percent) + "%\n"@
}

pub open spec fn spec_process_lines(ps: Seq<ProcessLoad>) -> Seq<char>
    decreases ps.len(),
{
    if ps.len() == 0 {
        Seq::empty()
    } else {
        spec_process_lines(ps.drop_last()) + spec_process_line(ps.last())
    }
}

pub open spec fn spec_min(a: int, b: int) -> int {
    if a < b {
        a
    } else {
        b
    }
}

/// The stats block: totals, the current session in minutes, and up to three
/// top apps.
pub open spec fn spec_stats_block(st: WindowSwitchStats) -> Seq<char> {
    "窗口切换统计:\n  - 总切换次数: "@ + spec_u64_chars(st.total_switches as u64)
        + "\n  - 当前会话时长: "@ + spec_tenths_chars(
        st.current_session_duration_ms / 6000,
    ) + "分钟\n"@ + (if st.most_used_apps@.len() > 0 {
        "  - 最常用应用:\n"@ + spec_app_lines(
            st.most_used_apps@.take(
                spec_min(st.most_used_apps@.len() as int, CONTEXT_TOP_APPS as int),
            ),
        )
    } else {
        Seq::empty()
    })
}

/// The window block: the focus identity, then stats and recent switches
/// where present.
pub open spec fn spec_window_block(w: ActiveWindowInfo) -> Seq<char> {
    "前台应用: "@ + spec_opt_text(w.app_name, "未知"@) + "\n窗口标题: "@ + spec_opt_text(
        w.window_title,
        "未知"@,
    ) + "\n"@ + (match w.switch_stats {
        Some(st) => spec_stats_block(st),
        None => Seq::empty(),
    }) + (match w.recent_switches {
        Some(evs) => if evs@.len() > 0 {
            "最近窗口切换:\n"@ + spec_switch_lines(
                evs@.take(spec_min(evs@.len() as int, CONTEXT_RECENT_SWITCHES as int)),
            )
        } else {
            Seq::empty()
        },
        None => Seq::empty(),
    })
}

/// The header of the context block.
pub open spec fn spec_context_head(ctx: SystemContext) -> Seq<char> {
    "用户: "@ + ctx.username@ + "\n主机: "@ + spec_opt_text(ctx.hostname, Seq::empty())
        + "\nOS: "@ + spec_opt_text(ctx.os_name, Seq::empty()) + " "@ + spec_opt_text(
        ctx.os_version,
        Seq::empty(),
    ) + "\n"@
}

/// The window part: the window block, or the permission notice.
pub open spec fn spec_window_part(ctx: SystemContext) -> Seq<char> {
    match ctx.active_window {
        Some(w) => spec_window_block(w),
        None => "前台应用: [需要辅助功能权限]\n窗口标题: [需要辅助功能权限]\n"@,
    }
}

/// The process part, present only when any processes were reported.
pub open spec fn spec_process_part(ctx: SystemContext) -> Seq<char> {
    if ctx.processes_top@.len() > 0 {
        "Top 进程:\n"@ + spec_process_lines(ctx.processes_top@)
    } else {
        Seq::empty()
    }
}

/// The whole context block.
pub open spec fn spec_context_text(ctx: SystemContext) -> Seq<char> {
    spec_context_head(ctx) + spec_window_part(ctx) + spec_process_part(ctx)
}

fn append_opt_text(out: &mut String, o: &Option<String>, fallback: &str)
    ensures
        final(out)@ == old(out)@ + spec_opt_text(*o, fallback@),
{
    match o {
        Some(s) => out.append(s.as_str()),
        None => out.append(fallback),
    }
}

fn append_app_lines(out: &mut String, apps: &Vec<(String, u64)>, upto: usize)
    requires
        upto <= apps@.len(),
    ensures
        final(out)@ == old(out)@ + spec_app_lines(apps@.take(upto as int)),
{
    let mut i: usize = 0;
    proof {
        assert(apps@.take(0) =~= Seq::<(String, u64)>::empty());
        assert(out@ =~= old(out)@ + spec_app_lines(apps@.take(0)));
    }
    while i < upto
        invariant
            0 <= i <= upto <= apps@.len(),
            out@ == old(out)@ + spec_app_lines(apps@.take(i as int)),
        decreases upto - i,
    {
        out.append("    * ");
        out.append(apps[i].0.as_str());
        out.append(": ");
        push_tenths(out, apps[i].1 / 6000);
        out.append("分钟\n");
        proof {
            assert(apps@.take(i + 1).drop_last() =~= apps@.take(i as int));
            assert(apps@.take(i + 1).last() == apps@[i as int]);
            assert(out@ =~= old(out)@ + spec_app_lines(apps@.take(i + 1)));
        }
        i = i + 1;
    }
}

fn append_switch_lines(out: &mut String, evs: &Vec<WindowSwitchEvent>, upto: usize)
    requires
        upto <= evs@.len(),
    ensures
        final(out)@ == old(out)@ + spec_switch_lines(evs@.take(upto as int)),
{
    let mut i: usize = 0;
    proof {
        assert(evs@.take(0) =~= Seq::<WindowSwitchEvent>::empty());
        assert(out@ =~= old(out)@ + spec_switch_lines(evs@.take(0)));
    }
    while i < upto
        invariant
            0 <= i <= upto <= evs@.len(),
            out@ == old(out)@ + spec_switch_lines(evs@.take(i as int)),
        decreases upto - i,
    {
        out.append("  - ");
        append_opt_text(out, &evs[i].from_app, "未知");
        out.append(" -> ");
        append_opt_text(out, &evs[i].to_app, "未知");
        out.append(" (停留");
        push_tenths(out, evs[i].duration_ms / 100);
        out.append("秒)\n");
        proof {
            assert(evs@.take(i + 1).drop_last() =~= evs@.take(i as int));
            assert(evs@.take(i + 1).last() == evs@[i as int]);
            assert(out@ =~= old(out)@ + spec_switch_lines(evs@.take(i + 1)));
        }
        i = i + 1;
    }
}

fn append_process_lines(out: &mut String, ps: &Vec<ProcessLoad>)
    ensures
        final(out)@ == old(out)@ + spec_process_lines(ps@),
{
    let n = ps.len();
    let mut i: usize = 0;
    proof {
        assert(ps@.take(0) =~= Seq::<ProcessLoad>::empty());
        assert(out@ =~= old(out)@ + spec_process_lines(ps@.take(0)));
    }
    while i < n
        invariant
            0 <= i <= n == ps@.len(),
            out@ == old(out)@ + spec_process_lines(ps@.take(i as int)),
        decreases n - i,
    {
        out.append("  - ");
        out.append(ps[i].name.as_str());
        out.append(" | cpu: ");
        push_tenths(out, ps[i].cpu_tenths_percent);
        out.append("%\n");
        proof {
            assert(ps@.take(i + 1).drop_last() =~= ps@.take(i as int));
            assert(ps@.take(i + 1).last() == ps@[i as int]);
            assert(out@ =~= old(out)@ + spec_process_lines(ps@.take(i + 1)));
        }
        i = i + 1;
    }
    proof {
        assert(ps@.take(n as int) =~= ps@);
    }
}

/// Renders the statistics block of the context text.
fn format_stats_block(st: &WindowSwitchStats) -> (r: String)
    ensures
        r@ == spec_stats_block(*st),
{
    let mut r = String::from_str("窗口切换统计:\n  - 总切换次数: ");
    let total = u64_to_string(st.total_switches as u64);
    r.append(total.as_str());
    r.append("\n  - 当前会话时长: ");
    push_tenths(&mut r, st.current_session_duration_ms / 6000);
    r.append("分钟\n");
    assert(r@ =~= "窗口切换统计:\n  - 总切换次数: "@ + spec_u64_chars(
        st.total_switches as u64,
    ) + "\n  - 当前会话时长: "@ + spec_tenths_chars(
        st.current_session_duration_ms / 6000,
    ) + "分钟\n"@);
    let ghost before = r@;
    if st.most_used_apps.len() > 0 {
        r.append("  - 最常用应用:\n");
        let upto = if st.most_used_apps.len() < CONTEXT_TOP_APPS {
            st.most_used_apps.len()
        } else {
            CONTEXT_TOP_APPS
        };
        append_app_lines(&mut r, &st.most_used_apps, upto);
        assert(r@ =~= before + ("  - 最常用应用:\n"@ + spec_app_lines(
            st.most_used_apps@.take(
                spec_min(st.most_used_apps@.len() as int, CONTEXT_TOP_APPS as int),
            ),
        )));
    }
    assert(r@ =~= spec_stats_block(*st));
    r
}

/// Renders the window block of the context text.
fn format_window_block(w: &ActiveWindowInfo) -> (r: String)
    ensures
        r@ == spec_window_block(*w),
{
    let mut r = String::from_str("前台应用: ");
    append_opt_text(&mut r, &w.app_name, "未知");
    r.append("\n窗口标题: ");
    append_opt_text(&mut r, &w.window_title, "未知");
    r.append("\n");
    assert(r@ =~= "前台应用: "@ + spec_opt_text(w.app_name, "未知"@) + "\n窗口标题: "@
        + spec_opt_text(w.window_title, "未知"@) + "\n"@);
    let ghost head = r@;
    match &w.switch_stats {
        None => {},
        Some(st) => {
            let block = format_stats_block(st);
            r.append(block.as_str());
        },
    }
    let ghost with_stats = r@;
    assert(with_stats == head + (match w.switch_stats {
        Some(st) => spec_stats_block(st),
        None => Seq::<char>::empty(),
    })) by {
        if w.switch_stats is None {
            assert(with_stats =~= head + Seq::<char>::empty());
        }
    }
    match &w.recent_switches {
        None => {},
        Some(evs) => {
            if evs.len() > 0 {
                let ghost before = r@;
                r.append("最近窗口切换:\n");
                let upto = if evs.len() < CONTEXT_RECENT_SWITCHES {
                    evs.len()
                } else {
                    CONTEXT_RECENT_SWITCHES
                };
                append_switch_lines(&mut r, evs, upto);
                assert(r@ =~= before + ("最近窗口切换:\n"@ + spec_switch_lines(
                    evs@.take(spec_min(evs@.len() as int, CONTEXT_RECENT_SWITCHES as int)),
                )));
            }
        },
    }
    assert(r@ =~= spec_window_block(*w)) by {
        if !(w.recent_switches is Some && w.recent_switches->0@.len() > 0) {
            assert(r@ =~= with_stats + Seq::<char>::empty());
        }
    }
    r
}

/// Renders the context block handed to the analysis prompt.
#[verifier::rlimit(100)]
pub fn format_context_as_text(ctx: &SystemContext) -> (r: String)
    ensures
        r@ == spec_context_text(*ctx),
{
    proof {
        reveal_strlit("");
        assert(""@ =~= Seq::<char>::empty());
    }
    let mut r = String::from_str("用户: ");
    r.append(ctx.username.as_str());
    r.append("\n主机: ");
    append_opt_text(&mut r, &ctx.hostname, "");
    r.append("\nOS: ");
    append_opt_text(&mut r, &ctx.os_name, "");
    r.append(" ");
    append_opt_text(&mut r, &ctx.os_version, "");
    r.append("\n");
    assert(r@ =~= spec_context_head(*ctx));
    match &ctx.active_window {
        None => {
            r.append("前台应用: [需要辅助功能权限]\n窗口标题: [需要辅助功能权限]\n");
        },
        Some(w) => {
            let block = format_window_block(w);
            r.append(block.as_str());
        },
    }
    assert(r@ == spec_context_head(*ctx) + spec_window_part(*ctx));
    let ghost sofar = r@;
    if ctx.processes_top.len() > 0 {
        let ghost before = r@;
        r.append("Top 进程:\n");
        append_process_lines(&mut r, &ctx.processes_top);
        assert(r@ =~= before + ("Top 进程:\n"@ + spec_process_lines(ctx.processes_top@)));
    }
    assert(r@ =~= spec_context_text(*ctx)) by {
        if ctx.processes_top@.len() == 0 {
            assert(r@ =~= sofar + Seq::<char>::empty());
        }
    }
    r
}

/// The line the history block writes for entry number `num` (1-based).
pub open spec fn spec_entry_line(e: ActivityEntry, num: int) -> Seq<char> {
    spec_u64_chars(num as u64) + ". 时间: "@ + e.time_text@ + "\n   描述: "@ + e.description@
        + "\n\n"@
}

/// Numbered lines for a run of entries, numbering from 1.
pub open spec fn spec_entry_lines(entries: Seq<ActivityEntry>) -> Seq<char>
    decreases entries.len(),
{
    if entries.len() == 0 {
        Seq::empty()
    } else {
        spec_entry_lines(entries.drop_last()) + spec_entry_line(
            entries.last(),
            entries.len() as int,
        )
    }
}

/// The recent-activity context handed to the analysis prompt: the last
/// `count` entries (the log keeps the newest last), numbered oldest first,
/// under a fixed header; a fixed notice when there is no history at all.
pub fn get_recent_activity_context(entries: &Vec<ActivityEntry>, count: usize) -> (r: String)
    requires
        count as int <= u64::MAX,
    ensures
        ({
            let n = entries@.len() as int;
            let take = spec_min(count as int, n);
            if n == 0 {
                r@ == "暂无历史活动记录"@
            } else {
                r@ == "【用户最近的活动历史】\n"@ + spec_entry_lines(
                    entries@.subrange(n - take, n),
                )
            }
        }),
{
    let n = entries.len();
    if n == 0 {
        return String::from_str("暂无历史活动记录");
    }
    let take = if count < n {
        count
    } else {
        n
    };
    let mut r = String::from_str("【用户最近的活动历史】\n");
    let ghost shown = entries@.subrange(n - take, n as int);
    let mut i: usize = 0;
    proof {
        assert(shown.subrange(0, 0) =~= Seq::<ActivityEntry>::empty());
        assert(r@ =~= "【用户最近的活动历史】\n"@ + spec_entry_lines(shown.subrange(0, 0)));
    }
    while i < take
        invariant
            0 <= i <= take <= n == entries@.len(),
            shown == entries@.subrange(n - take, n as int),
            shown.len() == take,
            r@ == "【用户最近的活动历史】\n"@ + spec_entry_lines(shown.subrange(0, i as int)),
        decreases take - i,
    {
        let num = u64_to_string((i + 1) as u64);
        r.append(num.as_str());
        r.append(". 时间: ");
        r.append(entries[n - take + i].time_text.as_str());
        r.append("\n   描述: ");
        r.append(entries[n - take + i].description.as_str());
        r.append("\n\n");
        proof {
            assert(shown.subrange(0, i + 1).drop_last() =~= shown.subrange(0, i as int));
            assert(shown.subrange(0, i + 1).last() == shown[i as int]);
            assert(shown[i as int] == entries@[n - take + i]);
            assert(r@ =~= "【用户最近的活动历史】\n"@ + spec_entry_lines(
                shown.subrange(0, i + 1),
            ));
        }
        i = i + 1;
    }
    proof {
        assert(shown.subrange(0, take as int) =~= shown);
    }
    r
}

/// How many busy processes the context records.
pub const TOP_PROCESSES: usize = 10;

/// The ranking view of a process list: name and load pairs.
pub open spec fn spec_proc_pairs(ps: Seq<ProcessLoad>) -> Seq<(String, u64)> {
    ps.map_values(|p: ProcessLoad| (p.name, p.cpu_tenths_percent))
}

/// The busiest processes: ordered by CPU share descending, ties keeping
/// their reported order, truncated to `TOP_PROCESSES`.
pub fn top_processes(procs: &Vec<ProcessLoad>) -> (r: Vec<ProcessLoad>)
    ensures
        crate::tracker::spec_is_top_apps(
            spec_proc_pairs(procs@),
            spec_proc_pairs(r@),
            TOP_PROCESSES as int,
        ),
{
    let n = procs.len();
    let mut pairs: Vec<(String, u64)> = Vec::new();
    let mut i: usize = 0;
    while i < n
        invariant
            0 <= i <= n == procs@.len(),
            pairs@ =~= spec_proc_pairs(procs@.take(i as int)),
        decreases n - i,
    {
        pairs.push((procs[i].name.clone(), procs[i].cpu_tenths_percent));
        proof {
            assert(pairs@ =~= spec_proc_pairs(procs@.take(i + 1)));
        }
        i = i + 1;
    }
    proof {
        assert(procs@.take(n as int) =~= procs@);
    }
    let ranked = crate::tracker::rank_top_apps(&pairs, TOP_PROCESSES);
    let m = ranked.len();
    let mut out: Vec<ProcessLoad> = Vec::new();
    let mut j: usize = 0;
    while j < m
        invariant
            0 <= j <= m == ranked@.len(),
            out@.len() == j,
            spec_proc_pairs(out@) =~= ranked@.take(j as int),
        decreases m - j,
    {
        out.push(ProcessLoad { name: ranked[j].0.clone(), cpu_tenths_percent: ranked[j].1 });
        proof {
            assert(spec_proc_pairs(out@) =~= ranked@.take(j + 1));
        }
        j = j + 1;
    }
    proof {
        assert(ranked@.take(m as int) =~= ranked@);
        assert(spec_proc_pairs(out@) == ranked@);
    }
    out
}


/// The entries considered for the history around entry `skip` of the
/// reversed log: the log newest first, with that one position left out.
pub open spec fn spec_history_pool(entries: Seq<ActivityEntry>, skip: int) -> Seq<ActivityEntry> {
    let rev = Seq::new(entries.len(), |j: int| entries[entries.len() - 1 - j]);
    if 0 <= skip < rev.len() {
        rev.subrange(0, skip) + rev.subrange(skip + 1, rev.len() as int)
    } else {
        rev
    }
}

/// The history context around one entry under re-analysis: up to `count` of
/// the other entries, newest first, numbered from 1, under the same header;
/// a fixed notice line when nothing remains. `current_index` counts from the
/// newest entry.
pub fn get_history_context_excluding_current(
    entries: &Vec<ActivityEntry>,
    current_index: usize,
    count: usize,
) -> (r: String)
    requires
        count as int <= u64::MAX,
    ensures
        ({
            let pool = spec_history_pool(entries@, current_index as int);
            let take = spec_min(count as int, pool.len() as int);
            if take == 0 {
                r@ == "【用户最近的活动历史】\n"@ + "暂无历史活动记录\n"@
            } else {
                r@ == "【用户最近的活动历史】\n"@ + spec_entry_lines(pool.subrange(0, take))
            }
        }),
{
    let n = entries.len();
    let ghost pool = spec_history_pool(entries@, current_index as int);
    let mut r = String::from_str("【用户最近的活动历史】\n");
    let mut added: usize = 0;
    let mut j: usize = 0;
    proof {
        assert(pool.subrange(0, 0) =~= Seq::<ActivityEntry>::empty());
        assert(r@ =~= "【用户最近的活动历史】\n"@ + spec_entry_lines(pool.subrange(0, 0)));
    }
    while j < n && added < count
        invariant
            0 <= j <= n == entries@.len(),
            count as int <= u64::MAX,
            pool == spec_history_pool(entries@, current_index as int),
            added == (if current_index < j {
                j - 1
            } else {
                j as int
            }),
            added <= count,
            added <= pool.len(),
            r@ == "【用户最近的活动历史】\n"@ + spec_entry_lines(
                pool.subrange(0, added as int),
            ),
        decreases n - j,
    {
        if j != current_index {
            assert(pool[added as int] == entries@[n - 1 - j]);
            let num = u64_to_string((added + 1) as u64);
            r.append(num.as_str());
            r.append(". 时间: ");
            r.append(entries[n - 1 - j].time_text.as_str());
            r.append("\n   描述: ");
            r.append(entries[n - 1 - j].description.as_str());
            r.append("\n\n");
            proof {
                assert(pool.subrange(0, added + 1).drop_last() =~= pool.subrange(
                    0,
                    added as int,
                ));
                assert(pool.subrange(0, added + 1).last() == pool[added as int]);
                assert(r@ =~= "【用户最近的活动历史】\n"@ + spec_entry_lines(
                    pool.subrange(0, added + 1),
                ));
            }
            added = added + 1;
        }
        j = j + 1;
    }
    if added == 0 {
        r.append("暂无历史活动记录\n");
        proof {
            assert(r@ =~= "【用户最近的活动历史】\n"@ + "暂无历史活动记录\n"@);
        }
        return r;
    }
    proof {
        assert(added == spec_min(count as int, pool.len() as int) || (added == count)
            || added == pool.len());
        assert(pool.subrange(0, added as int) == pool.subrange(
            0,
            spec_min(count as int, pool.len() as int),
        ));
    }
    r
}


} // verus!
