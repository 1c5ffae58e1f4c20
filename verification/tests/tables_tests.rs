use server_monitor::config::{config_from_text, config_to_text};
use server_monitor::logs::{
    add_log_files, add_logs_candidates, append_log_rows, commit_added_logs, delete_selected_row,
    import_logs_candidates, toggle_log_selection,
};
use server_monitor::paths::{file_name_text, name_or_path};
use server_monitor::projects::{
    add_project_file, apply_project_action, collect_project_settings, delete_selected_project,
    project_rows, selected_project_flags, set_allow_load_for_selected, set_autoload_for_selected,
    settings_rows,
};
use server_monitor::servers::{add_server, add_server_at};
use server_monitor::settings::{
    add_chbase_folder, initial_user_rows, projects_source_rows, selected_user_level,
    update_user_level,
};
use server_monitor::tables::{cell_text, make_row, Table};
use server_monitor::window::{context_menu_target, nonexistent_logs_message, should_hide_to_tray};
use server_monitor::{MonitorConfig, MsgDateTime, ProjectAction, ProjectSettings};

fn project(name: &str, autoload: bool, allow_load: bool) -> ProjectSettings {
    ProjectSettings { name: name.to_string(), autoload, allow_load, available_for_clients: true }
}

fn rows(t: &[&[&str]]) -> Table {
    t.iter().map(|r| make_row(r)).collect()
}

#[test]
fn make_row_keeps_items() {
    assert_eq!(make_row(&["a", "", "ц"]), vec!["a".to_string(), String::new(), "ц".to_string()]);
    assert!(make_row(&[]).is_empty());
}

#[test]
fn cell_text_of_missing_cell_is_empty() {
    let r = make_row(&["x"]);
    assert_eq!(cell_text(&r, 0), "x");
    assert_eq!(cell_text(&r, 3), "");
}

#[test]
fn file_name_text_takes_the_last_component() {
    assert_eq!(file_name_text("/home/user/logs/plant.log"), "plant.log");
    assert_eq!(file_name_text("projects/Alkali"), "Alkali");
    assert_eq!(file_name_text("/home/user/Alkali.prj"), "Alkali.prj");
    assert_eq!(file_name_text("C11LS1"), "C11LS1");
    assert_eq!(file_name_text("/tmp/logs/"), "logs");
    assert_eq!(file_name_text("tmp/foo.txt/."), "foo.txt");
    assert_eq!(file_name_text("a//b/./"), "b");
    assert_eq!(file_name_text("projects/.."), "projects/..");
    assert_eq!(file_name_text(".."), "..");
    assert_eq!(file_name_text("."), ".");
    assert_eq!(file_name_text("/nonexistent/dir/x.txt"), "x.txt");
    assert_eq!(file_name_text(&file_name_text("/srv/data/plant.log")), "plant.log");
    assert_eq!(file_name_text("/"), "/");
    assert_eq!(file_name_text(""), "");
    assert_eq!(name_or_path("/a/b", Some("b".to_string())), "b");
    assert_eq!(name_or_path("/a/..", None), "/a/..");
}

#[test]
fn settings_and_project_tables() {
    let ps = vec![project("A", true, false), project("B", false, true), project("C", true, true)];
    assert_eq!(
        settings_rows(&ps),
        rows(&[&["A", "Да", "Нет"], &["B", "Нет", "Да"], &["C", "Да", "Да"]])
    );
    assert_eq!(project_rows(&ps), rows(&[&["A", "Остановлен"], &["C", "Остановлен"]]));
    assert!(project_rows(&vec![]).is_empty());
}

#[test]
fn selected_flags_and_flag_updates() {
    let mut t = rows(&[&["A", "Да", "Нет"], &["B"]]);
    assert_eq!(selected_project_flags(&t, 0), (true, false));
    assert_eq!(selected_project_flags(&t, 1), (false, false));
    assert_eq!(selected_project_flags(&t, 2), (false, false));
    assert_eq!(selected_project_flags(&t, -1), (false, false));
    set_autoload_for_selected(&mut t, 1, true);
    assert_eq!(t[1], make_row(&["B", "Да", "Нет"]));
    set_allow_load_for_selected(&mut t, 0, true);
    assert_eq!(t[0], make_row(&["A", "Да", "Да"]));
    let before = t.clone();
    set_autoload_for_selected(&mut t, 5, true);
    set_allow_load_for_selected(&mut t, -1, true);
    assert_eq!(t, before);
}

#[test]
fn autoload_is_read_back_after_it_is_set() {
    let mut t = rows(&[&["A", "Нет", "Да"]]);
    set_autoload_for_selected(&mut t, 0, true);
    assert_eq!(selected_project_flags(&t, 0), (true, true));
    set_allow_load_for_selected(&mut t, 0, false);
    assert_eq!(selected_project_flags(&t, 0), (true, false));
}

#[test]
fn deleting_the_selected_project() {
    let mut t = rows(&[&["A", "Да", "Нет"], &[], &["C", "Нет", "Нет"]]);
    assert!(!delete_selected_project(&mut t, -1));
    assert_eq!(t.len(), 3);
    assert!(delete_selected_project(&mut t, 1));
    assert_eq!(t.len(), 3);
    assert!(delete_selected_project(&mut t, 7));
    assert!(delete_selected_project(&mut t, 0));
    assert_eq!(t, rows(&[&[], &["C", "Нет", "Нет"]]));
}

#[test]
fn saving_reads_settings_back() {
    let ps = vec![project("A", true, false), project("B", false, true)];
    let t = settings_rows(&ps);
    let back = collect_project_settings(&t, -1, false, false);
    assert_eq!(back.len(), 2);
    assert_eq!((back[0].name.as_str(), back[0].autoload, back[0].allow_load), ("A", true, false));
    assert_eq!((back[1].name.as_str(), back[1].autoload, back[1].allow_load), ("B", false, true));
    assert!(back.iter().all(|p| !p.available_for_clients));
    let sel = collect_project_settings(&t, 1, true, false);
    assert_eq!((sel[1].autoload, sel[1].allow_load), (true, false));
    assert_eq!((sel[0].autoload, sel[0].allow_load), (true, false));
    let skipped = collect_project_settings(&rows(&[&[], &["Z", "Да"]]), -1, false, false);
    assert_eq!(skipped.len(), 1);
    assert_eq!((skipped[0].name.as_str(), skipped[0].autoload, skipped[0].allow_load), ("Z", true, false));
}

#[test]
fn saving_the_configuration() {
    let mut cfg = MonitorConfig {
        machine_name: "SRV1".to_string(),
        chbase_path: String::new(),
        autoload_windows: false,
        projects: vec![],
    };
    let t = rows(&[&["A", "Нет", "Да"], &["B", "Да", "Нет"]]);
    let table = cfg.save_from_dialog(&t, 0, true, true, true, "/data".to_string());
    assert_eq!(cfg.machine_name, "SRV1");
    assert_eq!(cfg.chbase_path, "/data");
    assert!(cfg.autoload_windows);
    assert_eq!(cfg.projects.len(), 2);
    assert!(cfg.projects[0].autoload && cfg.projects[0].allow_load);
    assert_eq!(table, rows(&[&["A", "Остановлен"], &["B", "Остановлен"]]));
}

#[test]
fn project_actions_set_the_status() {
    let mut t = rows(&[&["A", "Остановлен"], &[]]);
    apply_project_action(&mut t, 0, ProjectAction::Open);
    assert_eq!(t[0], make_row(&["A", "Работает"]));
    apply_project_action(&mut t, 0, ProjectAction::Restart);
    assert_eq!(t[0], make_row(&["A", "Перезапуск"]));
    apply_project_action(&mut t, 1, ProjectAction::Close);
    assert_eq!(t[1], make_row(&["", "Остановлен"]));
    let before = t.clone();
    apply_project_action(&mut t, 2, ProjectAction::Open);
    apply_project_action(&mut t, -1, ProjectAction::Open);
    assert_eq!(t, before);
}

#[test]
fn project_action_twice_is_once() {
    let mut once = rows(&[&["A", "Остановлен"]]);
    apply_project_action(&mut once, 0, ProjectAction::Open);
    let mut twice = once.clone();
    apply_project_action(&mut twice, 0, ProjectAction::Open);
    assert_eq!(once, twice);
}

#[test]
fn chosen_project_file_is_added_unset() {
    let mut t = Table::new();
    add_project_file(&mut t, "/srv/projects/Alkali.prj");
    assert_eq!(t, rows(&[&["Alkali.prj", "Нет", "Нет"]]));
}

#[test]
fn users_table() {
    let mut t = initial_user_rows();
    assert_eq!(t, rows(&[&["SUPERVISOR", "10", ""], &["USER", "1", ""]]));
    assert_eq!(selected_user_level(&t, 0), "10");
    assert_eq!(selected_user_level(&t, 2), "");
    assert_eq!(selected_user_level(&t, -1), "");
    update_user_level(&mut t, 1, "5");
    assert_eq!(t[1], make_row(&["USER", "5", ""]));
    update_user_level(&mut t, 9, "5");
    assert_eq!(t.len(), 2);
}

#[test]
fn channel_base_tables() {
    let mut t = Table::new();
    add_chbase_folder(&mut t, "/base/Node7");
    assert_eq!(t, rows(&[&["Node7", "Да"]]));
    let entries = vec!["x".to_string(), "y".to_string()];
    assert_eq!(projects_source_rows("/base", &entries), rows(&[&["x", "Да"], &["y", "Да"]]));
    assert_eq!(projects_source_rows("/base/Empty", &vec![]), rows(&[&["Empty", "Да"]]));
}

#[test]
fn servers_table() {
    let mut t = Table::new();
    let dt = MsgDateTime::from_parts(2025, 1, 9, 18, 30, 5).unwrap();
    add_server_at(&mut t, "", &dt);
    assert!(t.is_empty());
    add_server_at(&mut t, "SRV-A", &dt);
    assert_eq!(t, rows(&[&["SRV-A", "09.01.2025 18:30:05"]]));
    assert!(!add_server(&mut t, ""));
    assert_eq!(t.len(), 1);
    assert!(add_server(&mut t, "SRV-B"));
    assert_eq!(t.len(), 2);
    assert_eq!(t[1][0], "SRV-B");
    assert_eq!(t[1][1].len(), 19);
    assert!(delete_selected_row(&mut t, 0));
    assert_eq!(t[0][0], "SRV-B");
    assert!(delete_selected_row(&mut t, 3));
    assert!(!delete_selected_row(&mut t, -2));
    assert_eq!(t.len(), 1);
}

#[test]
fn log_files_are_numbered() {
    let mut t = Table::new();
    add_log_files(&mut t, &vec!["/var/a.log".to_string(), "b.log".to_string()]);
    assert_eq!(
        t,
        rows(&[
            &["1", "a.log", "Object", "Value", "Tag", "1", "00:00:00", "0.0", "False"],
            &["2", "b.log", "Object", "Value", "Tag", "1", "00:00:00", "0.0", "False"],
        ])
    );
    append_log_rows(&mut t, &vec!["c".to_string()]);
    assert_eq!(t[2][0], "3");
    assert_eq!(t[2][1], "c");
}

#[test]
fn candidate_tables() {
    let a = add_logs_candidates();
    assert_eq!(a.len(), 4);
    assert_eq!(a[3], make_row(&["4", "AppComb", "C11V1", "State", "☑", "01000047", "☐"]));
    let i = import_logs_candidates();
    assert_eq!(i, rows(&[
        &["1", "Alkali", "LT1", "V_Recalc", "☐", "00000000", "☐"],
        &["2", "Alkali", "TANK10V4", "ladd", "☐", "00000000", "☐"],
    ]));
}

#[test]
fn toggling_a_candidate() {
    let mut t = add_logs_candidates();
    toggle_log_selection(&mut t, 1);
    assert_eq!(t[1][6], "☑");
    toggle_log_selection(&mut t, 1);
    assert_eq!(t, add_logs_candidates());
    let mut short = rows(&[&["1", "P"]]);
    toggle_log_selection(&mut short, 0);
    assert_eq!(short[0], make_row(&["1", "P", "", "", "", "", "☐"]));
    let mut odd = rows(&[&["1", "P", "O", "S", "T", "C", "x", "extra"]]);
    toggle_log_selection(&mut odd, 0);
    assert_eq!(odd[0], make_row(&["1", "P", "O", "S", "T", "C", "☐"]));
    let before = t.clone();
    toggle_log_selection(&mut t, 4);
    toggle_log_selection(&mut t, -1);
    assert_eq!(t, before);
}

#[test]
fn committing_chosen_candidates() {
    let mut available = add_logs_candidates();
    toggle_log_selection(&mut available, 0);
    toggle_log_selection(&mut available, 2);
    let mut logs = rows(&[&["1", "old.log", "Object", "Value", "Tag", "1", "00:00:00", "0.0", "False"]]);
    commit_added_logs(&available, &mut logs);
    assert_eq!(logs.len(), 3);
    assert_eq!(logs[1], make_row(&["2", "AppComb", "C11LS1", "State", "☑", "0100005D", "0", "0", "☐"]));
    assert_eq!(logs[2], make_row(&["3", "AppComb", "C11N1", "State", "☑", "01000038", "0", "0", "☐"]));
    let before = logs.clone();
    commit_added_logs(&import_logs_candidates(), &mut logs);
    assert_eq!(logs, before);
}

#[test]
fn window_decisions() {
    assert_eq!(context_menu_target(3), Some(3));
    assert_eq!(context_menu_target(0), Some(0));
    assert_eq!(context_menu_target(-1), None);
    assert!(should_hide_to_tray(true, false));
    assert!(!should_hide_to_tray(true, true));
    assert!(!should_hide_to_tray(false, false));
    assert_eq!(nonexistent_logs_message(), "На данный момент нет несуществующих свойств в проектах.");
}

#[test]
fn configuration_text_round_trip() {
    let cfg = MonitorConfig {
        machine_name: "SRV1".to_string(),
        chbase_path: "/data/base=1".to_string(),
        autoload_windows: true,
        projects: vec![project("Alkali|A", true, false), ProjectSettings {
            name: "Проект".to_string(),
            autoload: false,
            allow_load: true,
            available_for_clients: false,
        }],
    };
    let text = config_to_text(&cfg);
    assert_eq!(
        text,
        "machine_name=SRV1\nchbase_path=/data/base=1\nautoload_windows=1\nproject=1|0|1|Alkali|A\nproject=0|1|0|Проект\n"
    );
    let back = config_from_text(&text);
    assert_eq!(back.machine_name, cfg.machine_name);
    assert_eq!(back.chbase_path, cfg.chbase_path);
    assert_eq!(back.autoload_windows, cfg.autoload_windows);
    assert_eq!(back.projects.len(), 2);
    for (a, b) in back.projects.iter().zip(cfg.projects.iter()) {
        assert_eq!((&a.name, a.autoload, a.allow_load, a.available_for_clients),
                   (&b.name, b.autoload, b.allow_load, b.available_for_clients));
    }
}

#[test]
fn configuration_text_with_unknown_lines() {
    let cfg = config_from_text("garbage\nproject=1|1\nautoload_windows=yes\nproject=0|0|0|\n");
    assert_eq!(cfg.machine_name, "");
    assert!(!cfg.autoload_windows);
    assert_eq!(cfg.projects.len(), 1);
    assert_eq!(cfg.projects[0].name, "");
    let empty = config_from_text("");
    assert!(empty.projects.is_empty() && empty.machine_name.is_empty());
}

#[test]
fn file_names_of_non_portable_paths() {
    let s = file_name_text("C:\\dir\\x.txt");
    assert!(!s.is_empty() && s != "." && s != "..");
    assert!("C:\\dir\\x.txt".contains(s.as_str()));
}
