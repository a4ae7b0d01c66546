use launcher::catalog::{domain_order, dedup_bindings, shortcut_order};
use launcher::{
    filter_entries, Action, Command, CommandInfo, DomainInfo, DomainState, InputEvent, KeyBinding,
    KeyCode, LauncherArgs, LauncherEntry, LauncherEntryType, LauncherFlags, LauncherState,
    MouseButtons, Outcome, TabInfo,
};

fn flags(domains: bool, tabs: bool, keys: bool, commands: bool, fuzzy: bool) -> LauncherFlags {
    LauncherFlags {
        launch_menu_items: false,
        domains,
        key_assignments: keys,
        workspaces: false,
        commands,
        tabs,
        fuzzy,
    }
}

fn domain(id: usize, name: &str, label: &str, state: DomainState, spawnable: bool) -> DomainInfo {
    DomainInfo { domain_id: id, name: name.to_string(), label: label.to_string(), state, spawnable }
}

fn key(ch: char) -> InputEvent {
    InputEvent::Key { key: KeyCode::Char(ch), ctrl_only: false }
}

fn ctrl(ch: char) -> InputEvent {
    InputEvent::Key { key: KeyCode::Char(ch), ctrl_only: true }
}

fn special(k: KeyCode) -> InputEvent {
    InputEvent::Key { key: k, ctrl_only: false }
}

fn no_buttons() -> MouseButtons {
    MouseButtons { left: false, middle: false, right: false, vert_wheel: false, horz_wheel: false, wheel_positive: false }
}

fn scenario_args(fuzzy: bool) -> LauncherArgs {
    let domains = vec![
        domain(0, "local", "", DomainState::Attached, true),
        domain(1, "ssh1", "", DomainState::Detached, true),
    ];
    let tabs = vec![TabInfo { title: "build".to_string(), tab_id: 7, pane_count: 2 }];
    LauncherArgs::new(
        "Launcher",
        flags(true, true, false, false, fuzzy),
        3,
        0,
        "default".to_string(),
        vec![],
        &domains,
        &tabs,
        &vec![],
        &vec![],
    )
}

fn labels(state: &LauncherState) -> Vec<String> {
    state.filtered.iter().map(|&i| state.entries[i].label.clone()).collect()
}

fn plain_entry(label: &str, n: isize) -> LauncherEntry {
    let action = Action::ActivateTab(n);
    LauncherEntry::new(
        label.to_string(),
        action.clone(),
        LauncherEntryType::Tab(launcher::LauncherTabEntry {
            title: label.to_string(),
            tab_id: 0,
            tab_idx: n as usize,
            pane_count: 1,
        }),
    )
}

fn many_entries(n: usize) -> Vec<LauncherEntry> {
    (0..n).map(|i| plain_entry(&format!("entry{}", i), i as isize)).collect()
}

fn check_invariant(s: &LauncherState) {
    assert!(s.top_row <= s.active_idx);
    assert!(s.active_idx <= s.top_row + s.max_items);
    if !s.filtered.is_empty() {
        assert!(s.active_idx < s.filtered.len());
    }
}

#[test]
fn quick_select_launches_first_domain() {
    let mut s = LauncherState::new(scenario_args(false), 24);
    assert_eq!(labels(&s), vec!["domain `local`", "domain `ssh1`", "build. 2 panes"]);
    let r = s.handle_event(&key('1'));
    assert_eq!(r, Outcome::Launch(0));
    assert_eq!(*s.action_at(0), Action::SpawnCommandInNewTab { domain_name: "local".to_string() });
}

#[test]
fn typed_filter_then_enter_launches_best_match() {
    let mut s = LauncherState::new(scenario_args(false), 24);
    assert_eq!(s.handle_event(&key('/')), Outcome::Continue);
    assert!(s.filtering);
    for c in "ssh".chars() {
        assert_eq!(s.handle_event(&key(c)), Outcome::Continue);
    }
    assert_eq!(labels(&s), vec!["domain `ssh1`"]);
    let r = s.handle_event(&special(KeyCode::Enter));
    assert_eq!(r, Outcome::Launch(0));
    assert_eq!(*s.action_at(0), Action::AttachDomain("ssh1".to_string()));
}

#[test]
fn resize_keeps_active_row_visible() {
    let mut s = LauncherState::from_entries(many_entries(30), 24, false);
    for _ in 0..10 {
        s.handle_event(&key('j'));
    }
    assert_eq!(s.active_idx, 10);
    assert_eq!(s.top_row, 0);
    s.handle_event(&InputEvent::Resized { rows: 6 });
    assert_eq!(s.max_items, 3);
    assert_eq!(s.top_row, 7);
    let frame = s.render(80);
    assert!(frame.rows.iter().any(|r| r.active && r.entry == 10));
}

#[test]
fn non_left_click_cancels() {
    let mut s = LauncherState::new(scenario_args(false), 24);
    let mut b = no_buttons();
    b.right = true;
    assert_eq!(s.handle_event(&InputEvent::Mouse { y: 2, buttons: b }), Outcome::Cancel);
    let mut s = LauncherState::new(scenario_args(false), 24);
    let mut b = no_buttons();
    b.middle = true;
    assert_eq!(s.handle_event(&InputEvent::Mouse { y: 40, buttons: b }), Outcome::Cancel);
}

#[test]
fn left_click_on_row_launches_it() {
    let mut s = LauncherState::new(scenario_args(false), 24);
    let mut b = no_buttons();
    b.left = true;
    assert_eq!(s.handle_event(&InputEvent::Mouse { y: 2, buttons: b }), Outcome::Launch(1));
    assert_eq!(s.active_idx, 1);
}

#[test]
fn pointer_motion_moves_cursor_only() {
    let mut s = LauncherState::new(scenario_args(false), 24);
    assert_eq!(s.handle_event(&InputEvent::Mouse { y: 3, buttons: no_buttons() }), Outcome::Continue);
    assert_eq!(s.active_idx, 2);
}

#[test]
fn escape_and_ctrl_g_cancel() {
    let mut s = LauncherState::new(scenario_args(false), 24);
    assert_eq!(s.handle_event(&special(KeyCode::Escape)), Outcome::Cancel);
    let mut s = LauncherState::new(scenario_args(true), 24);
    assert_eq!(s.handle_event(&ctrl('G')), Outcome::Cancel);
}

#[test]
fn move_down_then_up_restores_cursor() {
    let mut s = LauncherState::from_entries(many_entries(5), 24, false);
    s.handle_event(&key('j'));
    s.handle_event(&key('j'));
    assert_eq!(s.active_idx, 2);
    s.move_down();
    s.move_up();
    assert_eq!(s.active_idx, 2);
}

#[test]
fn moves_clamp_at_both_ends() {
    let mut s = LauncherState::from_entries(many_entries(3), 24, false);
    s.handle_event(&special(KeyCode::UpArrow));
    assert_eq!(s.active_idx, 0);
    for _ in 0..5 {
        s.handle_event(&special(KeyCode::DownArrow));
    }
    assert_eq!(s.active_idx, 2);
    s.handle_event(&ctrl('P'));
    assert_eq!(s.active_idx, 1);
    s.handle_event(&ctrl('N'));
    assert_eq!(s.active_idx, 2);
}

#[test]
fn move_down_scrolls_past_viewport() {
    let mut s = LauncherState::from_entries(many_entries(20), 6, false);
    assert_eq!(s.max_items, 3);
    for _ in 0..5 {
        s.handle_event(&key('j'));
    }
    assert_eq!(s.active_idx, 5);
    assert_eq!(s.top_row, 2);
    for _ in 0..5 {
        s.handle_event(&key('k'));
    }
    assert_eq!(s.active_idx, 0);
    assert_eq!(s.top_row, 0);
}

#[test]
fn invariant_holds_over_event_sequence() {
    let mut s = LauncherState::from_entries(many_entries(25), 10, false);
    let mut wheel_down = no_buttons();
    wheel_down.vert_wheel = true;
    let mut wheel_up = wheel_down;
    wheel_up.wheel_positive = true;
    let events = vec![
        key('j'), key('j'), key('j'), key('j'), key('j'), key('j'), key('j'), key('j'), key('j'),
        InputEvent::Resized { rows: 5 },
        InputEvent::Mouse { y: 0, buttons: wheel_down },
        InputEvent::Mouse { y: 0, buttons: wheel_down },
        InputEvent::Mouse { y: 2, buttons: wheel_up },
        InputEvent::Resized { rows: 40 },
        key('k'),
        key('/'),
        key('1'),
        special(KeyCode::Backspace),
        special(KeyCode::Backspace),
        special(KeyCode::Backspace),
        key('j'),
        InputEvent::Resized { rows: 1 },
        key('j'),
        key('j'),
        InputEvent::Mouse { y: 1, buttons: wheel_down },
    ];
    for ev in events.iter() {
        let r = s.handle_event(ev);
        assert_ne!(r, Outcome::Cancel);
        check_invariant(&s);
    }
}

#[test]
fn wheel_scrolls_top_row_and_hovers() {
    let mut s = LauncherState::from_entries(many_entries(20), 6, false);
    let mut wheel_down = no_buttons();
    wheel_down.vert_wheel = true;
    s.handle_event(&InputEvent::Mouse { y: 0, buttons: wheel_down });
    assert_eq!(s.top_row, 1);
    assert_eq!(s.active_idx, 1);
    s.handle_event(&InputEvent::Mouse { y: 3, buttons: wheel_down });
    assert_eq!(s.top_row, 2);
    assert_eq!(s.active_idx, 4);
    let mut wheel_up = wheel_down;
    wheel_up.wheel_positive = true;
    s.handle_event(&InputEvent::Mouse { y: 0, buttons: wheel_up });
    assert_eq!(s.top_row, 1);
    assert_eq!(s.active_idx, 4);
}

#[test]
fn digit_out_of_range_is_ignored() {
    let mut s = LauncherState::new(scenario_args(false), 24);
    assert_eq!(s.handle_event(&key('9')), Outcome::Continue);
    assert_eq!(s.handle_event(&key('3')), Outcome::Launch(2));
}

#[test]
fn enter_on_empty_view_does_nothing() {
    let mut s = LauncherState::new(scenario_args(true), 24);
    for c in "zzzz".chars() {
        s.handle_event(&key(c));
    }
    assert!(s.filtered.is_empty());
    assert_eq!(s.handle_event(&special(KeyCode::Enter)), Outcome::Continue);
    check_invariant(&s);
}

#[test]
fn digits_are_typed_while_filtering() {
    let mut s = LauncherState::new(scenario_args(true), 24);
    assert_eq!(s.handle_event(&key('1')), Outcome::Continue);
    assert_eq!(s.filter_term, vec!['1']);
    assert_eq!(labels(&s), vec!["domain `ssh1`"]);
}

#[test]
fn backspace_on_empty_text_leaves_filter_mode() {
    let mut s = LauncherState::new(scenario_args(false), 24);
    s.handle_event(&key('/'));
    s.handle_event(&key('b'));
    assert_eq!(labels(&s), vec!["build. 2 panes"]);
    s.handle_event(&special(KeyCode::Backspace));
    assert!(s.filtering);
    assert_eq!(s.filtered, vec![0, 1, 2]);
    s.handle_event(&special(KeyCode::Backspace));
    assert!(!s.filtering);
}

#[test]
fn backspace_keeps_filter_mode_when_always_filtering() {
    let mut s = LauncherState::new(scenario_args(true), 24);
    s.handle_event(&special(KeyCode::Backspace));
    assert!(s.filtering);
}

#[test]
fn refilter_resets_cursor() {
    let mut s = LauncherState::new(scenario_args(false), 24);
    s.handle_event(&key('j'));
    s.handle_event(&key('j'));
    assert_eq!(s.active_idx, 2);
    s.handle_event(&key('/'));
    s.handle_event(&key('l'));
    assert_eq!(s.active_idx, 0);
    assert_eq!(s.top_row, 0);
}

#[test]
fn filtered_entries_all_match() {
    let entries = vec![
        plain_entry("alpha", 0),
        plain_entry("beta", 1),
        plain_entry("gamma", 2),
        plain_entry("alphabet", 3),
    ];
    let r = filter_entries(&entries, &vec!['a', 'l', 'p']);
    assert_eq!(r.len(), 2);
    assert!(r.contains(&0) && r.contains(&3));
    assert!(!r.contains(&1) && !r.contains(&2));
}

#[test]
fn empty_filter_is_identity() {
    let entries = many_entries(6);
    assert_eq!(filter_entries(&entries, &vec![]), vec![0, 1, 2, 3, 4, 5]);
}

#[test]
fn filter_ranks_by_score() {
    let entries = vec![plain_entry("xaxxbxxc", 0), plain_entry("abc", 1)];
    assert_eq!(filter_entries(&entries, &vec!['a', 'b', 'c']), vec![1, 0]);
}

#[test]
fn domains_sorted_attached_first_and_filtered() {
    let ds = vec![
        domain(5, "d5", "", DomainState::Detached, true),
        domain(9, "d9", "", DomainState::Attached, true),
        domain(2, "d2", "", DomainState::Detached, true),
        domain(1, "d1", "", DomainState::Attached, false),
        domain(3, "d3", "", DomainState::Attached, true),
    ];
    assert_eq!(domain_order(&ds), vec![4, 1, 2, 0]);
}

#[test]
fn domain_labels_and_actions() {
    let d = domain(1, "ssh1", "My Host", DomainState::Detached, true);
    assert_eq!(d.get_label(), "domain `ssh1` - My Host");
    assert_eq!(d.get_action(), Action::AttachDomain("ssh1".to_string()));
    let d = domain(1, "local", "local", DomainState::Attached, true);
    assert_eq!(d.get_label(), "domain `local`");
    assert_eq!(d.get_action(), Action::SpawnCommandInNewTab { domain_name: "local".to_string() });
}

#[test]
fn tab_label_and_action() {
    let t = TabInfo { title: "logs".to_string(), tab_id: 4, pane_count: 12 };
    assert_eq!(t.get_label(), "logs. 12 panes");
    let e = t.get_entry(3);
    assert_eq!(e.action, Action::ActivateTab(3));
    match e.launch_type {
        LauncherEntryType::Tab(rec) => {
            assert_eq!(rec.tab_idx, 3);
            assert_eq!(rec.tab_id, 4);
            assert_eq!(rec.pane_count, 12);
        }
        _ => panic!("tab entry expected"),
    }
}

fn binding(text: &str, action: Action) -> KeyBinding {
    KeyBinding {
        code: "x".to_string(),
        mods: "CTRL".to_string(),
        action,
        code_text: "Char('x')".to_string(),
        mods_text: "CTRL".to_string(),
        action_text: text.to_string(),
    }
}

#[test]
fn duplicate_bindings_keep_first() {
    let ks = vec![
        binding("Copy", Action::Other("Copy".to_string())),
        binding("Paste", Action::Other("Paste".to_string())),
        binding("CopyAgain", Action::Other("Copy".to_string())),
        binding("Tab", Action::ActivateTab(1)),
        binding("Rel", Action::ActivateTabRelative(-1)),
    ];
    assert_eq!(dedup_bindings(&ks), vec![0, 1]);
    let args = LauncherArgs::new(
        "t",
        flags(false, false, true, false, false),
        0,
        0,
        String::new(),
        vec![],
        &vec![],
        &vec![],
        &vec![],
        &ks,
    );
    assert_eq!(args.shortcuts.len(), 2);
    assert_eq!(args.shortcuts[0].label, "Copy (CTRL Char('x'))");
    assert_eq!(args.shortcuts[1].label, "Paste (CTRL Char('x'))");
}

#[test]
fn shortcuts_sorted_by_label() {
    let ks = vec![
        binding("b", Action::Other("1".to_string())),
        binding("a", Action::Other("2".to_string())),
        binding("c", Action::Other("3".to_string())),
        binding("a", Action::Other("4".to_string())),
    ];
    assert_eq!(shortcut_order(&ks), vec![1, 3, 0, 2]);
}

#[test]
fn commands_skip_tab_activation() {
    let cs = vec![
        CommandInfo { brief: "New".to_string(), doc: "Open a tab".to_string(), keys: String::new(), action: Action::Other("New".to_string()) },
        CommandInfo { brief: "Go".to_string(), doc: "Go to tab".to_string(), keys: String::new(), action: Action::ActivateTab(2) },
    ];
    let args = LauncherArgs::new(
        "t",
        flags(false, false, false, true, false),
        0,
        0,
        String::new(),
        vec![],
        &vec![],
        &vec![],
        &cs,
        &vec![],
    );
    assert_eq!(args.cmddefs.len(), 1);
    assert_eq!(args.cmddefs[0].label, "New. Open a tab");
    assert_eq!(args.cmddefs[0].action, Action::Other("New".to_string()));
}

#[test]
fn catalog_order_is_domains_tabs_commands_shortcuts() {
    let ds = vec![domain(0, "local", "", DomainState::Attached, true)];
    let ts = vec![TabInfo { title: "t".to_string(), tab_id: 0, pane_count: 1 }];
    let cs = vec![CommandInfo { brief: "C".to_string(), doc: "d".to_string(), keys: String::new(), action: Action::Other("C".to_string()) }];
    let ks = vec![binding("K", Action::Other("K".to_string()))];
    let args = LauncherArgs::new("t", flags(true, true, true, true, false), 0, 0, String::new(), vec![], &ds, &ts, &cs, &ks);
    let all: Vec<String> = args.build_entries().into_iter().map(|e| e.label).collect();
    assert_eq!(all, vec!["domain `local`", "t. 1 panes", "C. d", "K (CTRL Char('x'))"]);
}

#[test]
fn disabled_sources_contribute_nothing() {
    let ds = vec![domain(0, "local", "", DomainState::Attached, true)];
    let args = LauncherArgs::new("t", flags(false, false, false, false, false), 0, 0, String::new(), vec!["w".to_string()], &ds, &vec![], &vec![], &vec![]);
    assert!(args.domains.is_empty());
    assert!(args.workspaces.is_empty());
    assert_eq!(args.title, "t");
}

#[test]
fn render_frame_rows_and_header() {
    let mut s = LauncherState::new(scenario_args(false), 24);
    let f = s.render(20);
    assert_eq!(f.width, 14);
    assert_eq!(f.header.iter().collect::<String>(), "Select an item");
    assert_eq!(f.header.len(), 14);
    assert_eq!(f.rows.len(), 3);
    assert_eq!(f.rows[0].quick_select, Some(1));
    assert!(f.rows[0].active);
    assert_eq!(f.rows[0].label.iter().collect::<String>(), "domain `local`");
    assert_eq!(f.rows[2].label.iter().collect::<String>(), "build. 2 panes");
    s.handle_event(&key('/'));
    s.handle_event(&key('s'));
    let f = s.render(80);
    assert_eq!(f.header.iter().collect::<String>(), "Fuzzy matching: s");
    assert_eq!(f.rows[0].quick_select, None);
}

#[test]
fn render_shows_at_most_visible_rows_plus_one() {
    let s = LauncherState::from_entries(many_entries(30), 6, false);
    let f = s.render(80);
    assert_eq!(f.rows.len(), 4);
    let f = LauncherState::from_entries(many_entries(30), 40, false).render(80);
    assert_eq!(f.rows.len(), 30);
    assert_eq!(f.rows[9].quick_select, None);
    assert_eq!(f.rows[8].quick_select, Some(9));
}

#[test]
fn formatted_label_replaces_unless_failed_or_empty() {
    let mut e = plain_entry("orig", 0);
    e.apply_formatted_label(None);
    assert_eq!(e.label, "orig");
    e.apply_formatted_label(Some(String::new()));
    assert_eq!(e.label, "orig");
    e.apply_formatted_label(Some("new".to_string()));
    assert_eq!(e.label, "new");
}

#[test]
fn decode_follows_mode() {
    assert_eq!(launcher::event::decode(&key('j'), false), Command::MoveDown);
    assert_eq!(launcher::event::decode(&key('j'), true), Command::AppendChar('j'));
    assert_eq!(launcher::event::decode(&key('5'), false), Command::QuickSelect(4));
    assert_eq!(launcher::event::decode(&ctrl('N'), true), Command::MoveDown);
    assert_eq!(launcher::event::decode(&InputEvent::Resized { rows: 9 }, true), Command::Resize(9));
}

#[test]
fn wheel_scrolls_to_last_full_window() {
    let mut s = LauncherState::from_entries(many_entries(10), 6, false);
    assert_eq!(s.max_items, 3);
    let mut wheel_down = no_buttons();
    wheel_down.vert_wheel = true;
    for _ in 0..20 {
        s.handle_event(&InputEvent::Mouse { y: 0, buttons: wheel_down });
        check_invariant(&s);
    }
    assert_eq!(s.top_row, 7);
    assert_eq!(s.active_idx, 7);
}

#[test]
fn left_click_on_bottom_line_launches() {
    let mut s = LauncherState::from_entries(many_entries(10), 6, false);
    assert_eq!(s.max_items, 3);
    let mut b = no_buttons();
    b.left = true;
    assert_eq!(s.handle_event(&InputEvent::Mouse { y: 5, buttons: b }), Outcome::Launch(4));
    assert_eq!(s.active_idx, 4);
    assert_eq!(s.top_row, 1);
    check_invariant(&s);
}

#[test]
fn hover_below_window_keeps_cursor() {
    let mut s = LauncherState::from_entries(many_entries(10), 6, false);
    assert_eq!(s.handle_event(&InputEvent::Mouse { y: 5, buttons: no_buttons() }), Outcome::Continue);
    assert_eq!(s.active_idx, 0);
}

#[test]
fn duplicate_of_earlier_binding_keeps_earliest() {
    let ks = vec![
        binding("First", Action::Other("Same".to_string())),
        binding("Second", Action::Other("Same".to_string())),
        binding("Third", Action::Other("Same".to_string())),
    ];
    let args = LauncherArgs::new(
        "t",
        flags(false, false, true, false, false),
        0,
        0,
        String::new(),
        vec![],
        &vec![],
        &vec![],
        &vec![],
        &ks,
    );
    assert_eq!(args.shortcuts.len(), 1);
    assert_eq!(args.shortcuts[0].label, "First (CTRL Char('x'))");
    match &args.shortcuts[0].launch_type {
        LauncherEntryType::KeyAssignment(rec) => {
            assert_eq!(rec.code, "x");
            assert_eq!(rec.mods, "CTRL");
            assert_eq!(rec.assignment, Action::Other("Same".to_string()));
        }
        _ => panic!("key entry expected"),
    }
}
