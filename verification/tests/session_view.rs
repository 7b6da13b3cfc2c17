use seer::run::session_tui::{
    extract_signature, extract_timestamp, format_expiry, header_gaps, line_visual_rows, logs_title,
    rpc_display, split_line_at, status_text, AppStatus, FlatItem, Focus, Key, KeyAction, SessionApp,
    StreamEvent,
};

fn app_with_logs(lines: &[&str]) -> SessionApp {
    let mut app = SessionApp::new();
    for l in lines {
        app.apply(StreamEvent::Log(l.to_string()));
    }
    app
}

#[test]
fn timestamps_from_log_lines() {
    assert_eq!(extract_timestamp("[14:32:01] Program log: hi"), "14:32:01");
    assert_eq!(extract_timestamp("2024-01-01T14:32:01.123Z INFO x"), "14:32:01");
    assert_eq!(extract_timestamp("a b 09:05:07.5"), "09:05:07");
    assert_eq!(extract_timestamp("a b c 09:05:07"), "");
    assert_eq!(extract_timestamp("no time here"), "");
    assert_eq!(extract_timestamp("1:2:3"), "");
}

#[test]
fn signatures_from_log_lines() {
    let sig = "5VERv8NMvzbJMEkV8xnrLkEaWRtSz9CosKDYjCJjBRnbJLgp8uirBgmQpjKhoR4tjF3ZpRzrFmBV6UjKdiSZkQUW";
    let line = format!("Transaction signature: ({}), ok", sig);
    assert_eq!(extract_signature(&line), "5VERv8...SZkQUW"[..6].to_string() + "..." + &sig[sig.len() - 5..]);
    let short = "Program log: hello world this line is fairly long indeed";
    assert_eq!(extract_signature(short), short.chars().take(40).collect::<String>());
    assert_eq!(extract_signature("tiny"), "tiny");
    let with_zero = "0VERv8NMvzbJMEkV8xnrLkEaWRtSz9CosKDY";
    assert_eq!(extract_signature(with_zero), with_zero.chars().take(40).collect::<String>());
}

#[test]
fn signature_length_bounds() {
    let ones32 = "1".repeat(32);
    assert_eq!(extract_signature(&ones32), ones32.clone());
    let ones43 = "1".repeat(43);
    assert_eq!(extract_signature(&ones43), "111111...11111");
    let ones89 = "1".repeat(89);
    assert_eq!(extract_signature(&ones89), "1".repeat(40));
}

#[test]
fn split_line_at_chunks_by_width() {
    assert_eq!(split_line_at("abcdefg", 3), vec!["abc", "def", "g"]);
    assert_eq!(split_line_at("abcdef", 3), vec!["abc", "def"]);
    assert_eq!(split_line_at("", 3), vec![""]);
    assert_eq!(split_line_at("abc", 0), vec!["abc"]);
    assert_eq!(split_line_at("é✓x", 2), vec!["é✓", "x"]);
}

#[test]
fn visual_rows_match_split_line_at() {
    for line in ["", "a", "abcdefg", "abcdef", "x".repeat(100).as_str()] {
        for w in 1..12usize {
            assert_eq!(line_visual_rows(line, w), split_line_at(line, w).len());
            assert_eq!(split_line_at(line, w).concat(), line);
        }
    }
    assert_eq!(line_visual_rows("abc", 0), 3);
}

#[test]
fn log_lines_build_transaction_groups() {
    let app = app_with_logs(&[
        "validator starting",
        "Program 11111111111111111111111111111111 invoke [1]",
        "Program log: one",
        "Program 11111111111111111111111111111111 success",
        "Transaction Signature: xyz",
        "Program log: two",
    ]);
    assert_eq!(app.transactions.len(), 3);
    assert_eq!(app.transactions[0].header, "validator starting");
    assert_eq!(app.transactions[0].detail_lines.len(), 0);
    assert_eq!(app.transactions[1].detail_lines, vec!["Program log: one", "Program 11111111111111111111111111111111 success"]);
    assert_eq!(app.transactions[2].detail_lines, vec!["Program log: two"]);
    assert_eq!(app.logs.len(), 6);
    assert_eq!(app.selected, Some(2));
    let mut all: Vec<String> = Vec::new();
    for tx in &app.transactions {
        all.push(tx.header.clone());
        all.extend(tx.detail_lines.iter().cloned());
    }
    assert_eq!(all, app.logs);
}

#[test]
fn selection_stays_when_logs_focused() {
    let mut app = SessionApp::new();
    app.focus_logs();
    app.apply(StreamEvent::Log("a invoke [1]".into()));
    app.apply(StreamEvent::Log("b invoke [1]".into()));
    assert_eq!(app.selected, Some(0));
    app.focus_transactions();
    assert_eq!(app.focus, Focus::Transactions);
}

#[test]
fn status_events_update_the_header() {
    let mut app = SessionApp::new();
    app.apply(StreamEvent::Pending("queued".into()));
    assert_eq!(status_text(&app.status), "\u{23f3} Pending  queued");
    app.apply(StreamEvent::Running { url: "http://rpc".into(), expires_at: 100 });
    assert_eq!(app.rpc_url, "http://rpc");
    assert_eq!(app.expires_at, Some(100));
    assert!(matches!(app.status, AppStatus::Running));
    app.apply(StreamEvent::Completed { error: String::new() });
    assert!(app.stream_done);
    assert_eq!(status_text(&app.status), "\u{2714} Completed");
    let mut b = SessionApp::new();
    b.apply(StreamEvent::Error("boom".into()));
    assert_eq!(status_text(&b.status), "\u{2718} Error: boom");
    assert!(b.stream_done);
    let mut c = SessionApp::new();
    c.apply(StreamEvent::Done);
    assert!(c.stream_done);
    assert_eq!(status_text(&c.status), "\u{25cb} Connecting...");
    assert_eq!(status_text(&AppStatus::Completed { error: "bad".into() }), "\u{2718} Completed with error: bad");
}

#[test]
fn flat_items_and_toggle() {
    let mut app = app_with_logs(&["h0", "d0", "x invoke [1]", "d1", "d2"]);
    assert_eq!(app.flat_items(), vec![FlatItem::TxHeader(0), FlatItem::TxHeader(1)]);
    app.selected = Some(1);
    app.toggle_expand();
    assert!(app.transactions[1].expanded);
    assert_eq!(
        app.flat_items(),
        vec![FlatItem::TxHeader(0), FlatItem::TxHeader(1), FlatItem::TxDetail(1, 0), FlatItem::TxDetail(1, 1)]
    );
    app.toggle_expand();
    assert!(!app.transactions[1].expanded);
    app.selected = Some(0);
    app.toggle_expand();
    assert!(app.transactions[0].expanded);
    app.selected = Some(3);
    app.toggle_expand();
    assert_eq!(app.selected, Some(3));
    app.selected = Some(1);
    app.toggle_expand();
    assert!(!app.transactions[1].expanded);
    app.selected = Some(2);
    app.toggle_expand();
    assert!(app.transactions[1].expanded);
}

#[test]
fn toggle_clamps_selection() {
    let mut app = app_with_logs(&["h0", "d0", "d1"]);
    app.selected = Some(0);
    app.toggle_expand();
    app.selected = Some(0);
    app.toggle_expand();
    assert_eq!(app.flat_items().len(), 1);
    assert_eq!(app.selected, Some(0));
}

#[test]
fn tx_navigation_wraps_and_undoes() {
    let mut app = app_with_logs(&["a invoke [1]", "b invoke [1]", "c invoke [1]"]);
    app.selected = Some(2);
    app.tx_next();
    assert_eq!(app.selected, Some(0));
    app.tx_prev();
    assert_eq!(app.selected, Some(2));
    app.selected = Some(1);
    app.tx_next();
    app.tx_prev();
    assert_eq!(app.selected, Some(1));
    app.selected = None;
    app.tx_prev();
    assert_eq!(app.selected, Some(0));
    let mut empty = SessionApp::new();
    empty.selected = Some(5);
    empty.tx_next();
    assert_eq!(empty.selected, Some(5));
}

#[test]
fn log_scrolling_and_layout() {
    let mut app = app_with_logs(&["aaaaaaaaaa", "bb", "cccccc"]);
    let rows = app.layout_logs(4, 2);
    assert_eq!(app.log_panel_width, 4);
    assert_eq!(app.log_panel_height, 2);
    assert_eq!(app.total_visual_rows(), 6);
    assert_eq!(app.visual_bottom(), 4);
    assert_eq!(rows, vec!["cccc", "cc"]);
    assert!(app.log_follow);
    assert_eq!(app.log_offset, 4);
    app.log_prev();
    assert!(!app.log_follow);
    assert_eq!(app.log_offset, 3);
    let rows = app.layout_logs(4, 2);
    assert_eq!(rows, vec!["bb", "cccc"]);
    app.log_next();
    assert_eq!(app.log_offset, 4);
    assert!(app.log_follow);
    app.log_next();
    assert_eq!(app.log_offset, 4);
}

#[test]
fn keys_drive_the_view() {
    let mut app = app_with_logs(&["one", "two", "three"]);
    app.layout_logs(10, 1);
    assert_eq!(app.handle_key(Key::Char('k'), false), KeyAction::Continue);
    assert_eq!(app.log_offset, 0);
    assert!(!app.log_follow);
    assert_eq!(app.handle_key(Key::Char('j'), false), KeyAction::Continue);
    assert!(app.log_follow);
    assert_eq!(app.handle_key(Key::Char('c'), false), KeyAction::Continue);
    app.rpc_url = "http://x".into();
    assert_eq!(app.handle_key(Key::Char('c'), false), KeyAction::CopyUrl);
    app.url_copied = true;
    assert_eq!(app.handle_key(Key::Char('c'), true), KeyAction::Quit);
    assert!(!app.url_copied);
    assert_eq!(app.handle_key(Key::Char('q'), false), KeyAction::Quit);
    assert_eq!(app.handle_key(Key::Esc, false), KeyAction::Quit);
    assert_eq!(app.handle_key(Key::Other, false), KeyAction::Continue);
    app.handle_key(Key::Up, false);
    assert_eq!(app.log_offset, 1);
    app.handle_key(Key::Down, false);
    assert_eq!(app.log_offset, 2);
    assert!(app.log_follow);
}

#[test]
fn header_pieces() {
    assert_eq!(format_expiry(100, 200), "  (expired)");
    assert_eq!(format_expiry(100, 100), "  (expired)");
    assert_eq!(format_expiry(1000, 875), "  (2m 5s remaining)");
    assert_eq!(rpc_display(""), "\u{2014}");
    assert_eq!(rpc_display("http://a"), "http://a");
    assert_eq!(logs_title(false), " RPC Logs ");
    assert_eq!(logs_title(true), " RPC Logs (session ended \u{2014} press q to exit) ");
    let (a, b) = header_gaps("\u{25cf} Running", "http://x");
    assert_eq!(a, " ".repeat(3));
    assert_eq!(b, " ".repeat("\u{25cf} Running".len() - "http://x".len() + 3));
}

#[test]
fn ingest_log_keeps_lines_and_opens_groups() {
    let lines = ["boot", "Program X invoke [1]", "Program log: a", "sendTransaction ok", "tail"];
    let mut app = SessionApp::new();
    for l in lines {
        app.ingest_log(l.to_string());
    }
    let mut all: Vec<String> = Vec::new();
    for tx in &app.transactions {
        all.push(tx.header.clone());
        all.extend(tx.detail_lines.iter().cloned());
    }
    assert_eq!(all, lines.iter().map(|s| s.to_string()).collect::<Vec<_>>());
    let headers: Vec<&str> = app.transactions.iter().map(|t| t.header.as_str()).collect();
    assert_eq!(headers, vec!["boot", "Program X invoke [1]", "sendTransaction ok"]);
    assert_eq!(app.selected, Some(app.transactions.len() - 1));
}

#[test]
fn ingest_logs_takes_lines_in_order() {
    let lines: Vec<String> = ["boot", "a", "Program X invoke [1]", "b"].iter().map(|s| s.to_string()).collect();
    let mut app = SessionApp::new();
    app.ingest_logs(&lines);
    assert_eq!(app.transactions.len(), 2);
    assert_eq!(app.transactions[0].header, "boot");
    assert_eq!(app.transactions[0].detail_lines, vec!["a"]);
    assert_eq!(app.transactions[1].header, "Program X invoke [1]");
    assert_eq!(app.transactions[1].detail_lines, vec!["b"]);
    assert_eq!(app.selected, Some(1));
}
