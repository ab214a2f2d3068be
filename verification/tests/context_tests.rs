use screentime::analyze::{build_full_prompt, description_or_default, image_data_url};
use screentime::context::{
    format_context_as_text, get_history_context_excluding_current, get_recent_activity_context,
    top_processes, u64_to_string, ActiveWindowInfo, ActivityEntry, ProcessLoad, SystemContext,
};
use screentime::permissions::PermissionStatus;
use screentime::screen::{find_screen_containing_window, select_best_screen, DisplayBounds, WindowBounds};
use screentime::tracker::{WindowSwitchEvent, WindowSwitchStats};

#[test]
fn numbers_render_in_decimal() {
    assert_eq!(u64_to_string(0), "0");
    assert_eq!(u64_to_string(42), "42");
    assert_eq!(u64_to_string(u64::MAX), "18446744073709551615");
}

#[test]
fn the_context_block_renders_every_part() {
    let ctx = SystemContext {
        username: "pat".to_string(),
        hostname: Some("box".to_string()),
        os_name: Some("linux".to_string()),
        os_version: Some("6.1".to_string()),
        processes_top: vec![ProcessLoad {
            name: "editor".to_string(),
            cpu_tenths_percent: 123,
        }],
        active_window: Some(ActiveWindowInfo {
            app_name: Some("editor".to_string()),
            window_title: None,
            bounds: None,
            timestamp: Some(1),
            process_id: Some(7),
            switch_stats: Some(WindowSwitchStats {
                total_switches: 2,
                most_used_apps: vec![("editor".to_string(), 90_000)],
                current_session_duration_ms: 30_000,
                last_switch_time: Some(1),
            }),
            recent_switches: Some(vec![WindowSwitchEvent {
                from_app: Some("shell".to_string()),
                to_app: Some("editor".to_string()),
                from_title: None,
                to_title: None,
                timestamp: 1,
                duration_ms: 1_500,
            }]),
        }),
    };
    let text = format_context_as_text(&ctx);
    let expected = "用户: pat\n主机: box\nOS: linux 6.1\n前台应用: editor\n窗口标题: 未知\n窗口切换统计:\n  - 总切换次数: 2\n  - 当前会话时长: 0.5分钟\n  - 最常用应用:\n    * editor: 1.5分钟\n最近窗口切换:\n  - shell -> editor (停留1.5秒)\nTop 进程:\n  - editor | cpu: 12.3%\n";
    assert_eq!(text, expected);
}

#[test]
fn a_bare_context_reports_missing_permissions() {
    let ctx = SystemContext {
        username: "pat".to_string(),
        hostname: None,
        os_name: None,
        os_version: None,
        processes_top: Vec::new(),
        active_window: None,
    };
    let text = format_context_as_text(&ctx);
    let expected = "用户: pat\n主机: \nOS:  \n前台应用: [需要辅助功能权限]\n窗口标题: [需要辅助功能权限]\n";
    assert_eq!(text, expected);
}

#[test]
fn recent_activity_lists_the_newest_entries_oldest_first() {
    let entries = vec![
        ActivityEntry { time_text: "t1".to_string(), description: "one".to_string() },
        ActivityEntry { time_text: "t2".to_string(), description: "two".to_string() },
        ActivityEntry { time_text: "t3".to_string(), description: "three".to_string() },
    ];
    let text = get_recent_activity_context(&entries, 2);
    let expected = "【用户最近的活动历史】\n1. 时间: t2\n   描述: two\n\n2. 时间: t3\n   描述: three\n\n";
    assert_eq!(text, expected);
    assert_eq!(get_recent_activity_context(&Vec::new(), 5), "暂无历史活动记录");
}

#[test]
fn top_processes_rank_by_load() {
    let procs: Vec<ProcessLoad> = (0..12)
        .map(|i| ProcessLoad {
            name: format!("p{}", i),
            cpu_tenths_percent: (i as u64) * 10,
        })
        .collect();
    let top = top_processes(&procs);
    assert_eq!(top.len(), 10);
    assert_eq!(top[0].name, "p11");
    assert_eq!(top[0].cpu_tenths_percent, 110);
    assert_eq!(top[9].name, "p2");
}

#[test]
fn the_full_prompt_frames_context_and_history() {
    let p = build_full_prompt("describe this", Some("ctx here"), Some("history here"));
    assert_eq!(
        p,
        "describe this\n\n以下是当前系统上下文，请结合截图一起分析：\nctx here\n\nhistory here以下是用户最近的活动历史，仅供参考。请独立分析当前截图，当前行为可能与历史活动相关，也可能完全无关。"
    );
    assert_eq!(build_full_prompt("just this", None, None), "just this");
}

#[test]
fn replies_without_content_get_the_fallback() {
    assert_eq!(description_or_default(Some("seen".to_string())), "seen");
    assert_eq!(description_or_default(None), "无法分析截图内容");
}

#[test]
fn the_image_embeds_as_a_base64_data_url() {
    assert_eq!(image_data_url(&vec![1, 2, 3]), "data:image/png;base64,AQID");
    assert_eq!(image_data_url(&vec![255]), "data:image/png;base64,/w==");
    assert_eq!(image_data_url(&Vec::new()), "data:image/png;base64,");
}

#[test]
fn permissions_summarize_correctly() {
    let both = PermissionStatus { screen_recording: true, accessibility: true };
    assert!(both.all_granted());
    assert!(!both.has_missing_permissions());
    let one = PermissionStatus { screen_recording: true, accessibility: false };
    assert!(!one.all_granted());
    assert!(one.has_missing_permissions());
}

#[test]
fn the_capture_screen_follows_the_window_center() {
    let displays = vec![
        DisplayBounds { x: 0, y: 0, width: 1920, height: 1080 },
        DisplayBounds { x: 1920, y: 0, width: 1280, height: 1024 },
    ];
    let on_second = WindowBounds { x: 2000, y: 100, width: 400, height: 300 };
    assert_eq!(find_screen_containing_window(&displays, &on_second), Some(1));
    assert_eq!(select_best_screen(&displays, Some(&on_second)), 1);
    let nowhere = WindowBounds { x: -5000, y: -5000, width: 10, height: 10 };
    assert_eq!(find_screen_containing_window(&displays, &nowhere), None);
    assert_eq!(select_best_screen(&displays, Some(&nowhere)), 0);
    assert_eq!(select_best_screen(&displays, None), 0);
    let single = vec![DisplayBounds { x: 0, y: 0, width: 800, height: 600 }];
    assert_eq!(select_best_screen(&single, Some(&on_second)), 0);
}

#[test]
fn history_around_an_entry_skips_it_and_counts_from_the_newest() {
    let entries = vec![
        ActivityEntry { time_text: "t1".to_string(), description: "one".to_string() },
        ActivityEntry { time_text: "t2".to_string(), description: "two".to_string() },
        ActivityEntry { time_text: "t3".to_string(), description: "three".to_string() },
    ];
    // Skip position 0 of the reversed log: the newest entry.
    let text = get_history_context_excluding_current(&entries, 0, 5);
    let expected = "【用户最近的活动历史】\n1. 时间: t2\n   描述: two\n\n2. 时间: t1\n   描述: one\n\n";
    assert_eq!(text, expected);
    // With a single entry skipped there is nothing left to list.
    let one = vec![ActivityEntry { time_text: "t".to_string(), description: "d".to_string() }];
    assert_eq!(
        get_history_context_excluding_current(&one, 0, 5),
        "【用户最近的活动历史】\n暂无历史活动记录\n"
    );
}
