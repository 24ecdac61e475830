use seoder::web::builder::{build_query, engine_files, engine_source_match, engine_target, file_name_of};
use seoder::web::command::{parse_command, split_first_space, Action};
use seoder::web::engine::{comma_list_block, engine_creation, Eng};
use seoder::web::ft::{rejection_reply, upload_ending, upload_file_name, UploadRejection};
use seoder::web::list::{file_count_entry, is_site_list, is_valid_folder, relative_name, strip_base};
use seoder::web::panel::raw_html;
use seoder::web::server::{
    client_address, client_port, license_accepted, license_body, license_endpoint, loop_address,
    needs_validation,
};
use seoder::web::session::{plan_action, Task, TickState};
use seoder::web::stats::{stats, NetworkUsage, SystemSnapshot};
use seoder::text::text_lines;

fn lines(v: &[&str]) -> Vec<String> {
    v.iter().map(|s| s.to_string()).collect()
}

#[test]
fn commands_of_the_panel() {
    assert_eq!(parse_command("feed"), Some((Action::Stats, String::new())));
    assert_eq!(parse_command(" config x "), Some((Action::Config, "x".to_string())));
    assert_eq!(
        parse_command("run-campaign my campaign"),
        Some((Action::RunCampaign, "my campaign".to_string()))
    );
    assert_eq!(parse_command("run-all-campaigns\n"), Some((Action::RunAllCampaigns, String::new())));
    assert_eq!(parse_command("run-all-campaigns now"), None);
    assert_eq!(parse_command("list-totals a"), Some((Action::ListFileCount, "a".to_string())));
    assert_eq!(parse_command("delete-file f.txt"), Some((Action::RemoveFile, "f.txt".to_string())));
    assert_eq!(parse_command("list-files"), Some((Action::ListFiles, String::new())));
    assert_eq!(parse_command("unknown"), None);
    assert_eq!(parse_command(""), None);
    let (w, a) = split_first_space(&"set-list  a b".chars().collect::<Vec<char>>());
    assert_eq!(w.iter().collect::<String>(), "set-list");
    assert_eq!(a.iter().collect::<String>(), " a b");
}

#[test]
fn actions_need_a_license_to_run() {
    assert!(matches!(plan_action(Action::RunAllCampaigns, "", false, "/f/"), Task::Nothing));
    assert!(matches!(plan_action(Action::RunAllCampaigns, "", true, "/f/"), Task::RunAll));
    match plan_action(Action::RunCampaign, "c", true, "/f/") {
        Task::Run(c) => assert_eq!(c, "c"),
        _ => panic!("expected a run"),
    }
    match plan_action(Action::SetList, "list.txt", false, "/f/") {
        Task::WriteConfig(k, v) => {
            assert_eq!(k, "target");
            assert_eq!(v, "/f/list.txt");
        }
        _ => panic!("expected a config write"),
    }
}

#[test]
fn refresh_schedule() {
    let mut t = TickState::new();
    let mut configs = Vec::new();
    let mut lists = Vec::new();
    for i in 0..25 {
        let p = t.tick();
        if p.send_config {
            configs.push(i);
        }
        if p.send_lists {
            lists.push(i);
        }
    }
    assert_eq!(configs, vec![0]);
    assert_eq!(lists, vec![0, 12, 24]);
}

#[test]
fn engine_config_and_target() {
    assert!(engine_source_match(&Vec::new()));
    assert!(!engine_source_match(&lines(&["source false"])));
    assert!(!engine_source_match(&lines(&["source maybe"])));
    assert!(engine_source_match(&lines(&["source false", "source true"])));
    assert_eq!(engine_target(&Vec::new()), Some("urls-input.txt".to_string()));
    assert_eq!(engine_target(&lines(&["target /a/b/list.txt"])), Some("list.txt".to_string()));
    assert_eq!(engine_target(&lines(&["target /a/b c.txt"])), Some("b c.txt".to_string()));
    assert_eq!(engine_target(&lines(&["target /a/.."])), None);
    // repeated and trailing separators and `.` pieces are not components
    assert_eq!(engine_target(&lines(&["target /a//lists/./"])), Some("lists".to_string()));
    assert_eq!(engine_target(&lines(&["target ./x/."])), Some("x".to_string()));
    assert_eq!(engine_target(&lines(&["target /"])), None);
    let hh: Vec<Vec<char>> = vec!["k".chars().collect(), "a".chars().collect(), "b".chars().collect()];
    assert_eq!(build_query(&hh), "a b");
    let (p, q, c) = engine_files("/e/", "shop");
    assert_eq!((p.as_str(), q.as_str(), c.as_str()), ("/e/shop/paths.txt", "/e/shop/patterns.txt", "/e/shop/config.txt"));
}

#[test]
fn listing_names() {
    assert_eq!(relative_name("/data/seoder/engines/shop", "/data/seoder/engines"), "shop");
    assert_eq!(relative_name("/x/shop", "/data"), "/x/shop".trim_start_matches('/').to_string());
    assert_eq!(strip_base("/f/list.txt", "/f/"), "list.txt");
    assert!(is_valid_folder("/e/shop/valid"));
    assert!(!is_valid_folder("/e/shop"));
    assert!(is_site_list("a.txt"));
    assert!(!is_site_list("a.csv"));
    let (name, list) = file_count_entry("/e/shop", "", "/e/", "/f/");
    assert_eq!(name, "shop");
    assert_eq!(list, "/f/urls-input.txt");
    let (name, _) = file_count_entry("", "t.txt", "/e/", "/f/");
    assert_eq!(name, "default");
}

#[test]
fn engine_creation_files_read_back() {
    let eng = Eng { name: "shop".into(), paths: "/a,/b".into(), patterns: "buy,sale".into() };
    let made = engine_creation("/e/", &eng).unwrap();
    assert_eq!(made.dir, "/e/shop");
    assert_eq!(made.valid_dir, "/e/shop/valid");
    assert_eq!(made.paths_file, "/e/shop/paths.txt");
    assert_eq!(made.paths_text, "/a\n/b\n");
    assert_eq!(made.patterns_text, "buy\nsale\n");
    assert_eq!(text_lines(&made.paths_text), vec!["/a", "/b"]);
    let unnamed = Eng { name: String::new(), paths: "x".into(), patterns: "y".into() };
    assert!(engine_creation("/e/", &unnamed).is_none());
    assert_eq!(comma_list_block(""), "\n");
}

#[test]
fn uploads() {
    assert_eq!(upload_ending(Some("text/plain")), Ok("txt"));
    assert_eq!(upload_ending(Some("image/png")), Err(UploadRejection::InvalidFileType));
    assert_eq!(upload_ending(None), Err(UploadRejection::UndeterminedFileType));
    assert_eq!(upload_file_name("/f/", "list.txt").1, "/f/list.txt");
    assert_eq!(upload_file_name("/f/", "list").1, "/f/list.txt");
    assert_eq!(upload_file_name("/f/", "mytxt").1, "/f/mytxt");
    let (id, path) = upload_file_name("/f/", "");
    assert_eq!(id.len(), 36);
    for (i, c) in id.chars().enumerate() {
        if i == 8 || i == 13 || i == 18 || i == 23 {
            assert_eq!(c, '-');
        } else {
            assert!(c.is_ascii_digit() || ('a'..='f').contains(&c));
        }
    }
    assert_eq!(path, format!("/f/{}.txt", id));
    let (id2, _) = upload_file_name("/f/", "");
    assert_ne!(id, id2);
    assert_eq!(rejection_reply(true, true), (404, "Not Found"));
    assert_eq!(rejection_reply(false, true), (400, "Payload too large"));
    assert_eq!(rejection_reply(false, false), (500, "Internal Server Error"));
}

#[test]
fn system_stats() {
    let snap = SystemSnapshot {
        networks: vec![
            NetworkUsage { received: 10, transmitted: 1 },
            NetworkUsage { received: 5, transmitted: 2 },
        ],
        memory_total: 100,
        memory_used: 40,
        memory_available: 60,
        memory_free: 50,
    };
    let s = stats(&snap).unwrap();
    assert_eq!((s.network_received, s.network_transmited, s.network_total_transmitted), (15, 3, 18));
    assert_eq!((s.memory_total, s.memory_used, s.memory_available, s.memory_free), (100, 40, 60, 50));
    let big = SystemSnapshot {
        networks: vec![NetworkUsage { received: u64::MAX, transmitted: 1 }],
        memory_total: 0,
        memory_used: 0,
        memory_available: 0,
        memory_free: 0,
    };
    assert!(stats(&big).is_none());
}

#[test]
fn server_addresses_and_license() {
    assert_eq!(loop_address("127.0.0.1:8080"), "127.0.0.1:8089");
    assert_eq!(loop_address(""), "9");
    assert_eq!(client_address("0.0.0.0"), Some((0, 0, 0, 0)));
    assert_eq!(client_address("10.1.2.3.4"), Some((10, 1, 2, 3)));
    assert_eq!(client_address("10.1.2"), None);
    assert_eq!(client_address("300.1.2.3"), None);
    assert_eq!(client_port("8000"), 8000);
    assert_eq!(client_port("x"), 3000);
    assert_eq!(license_endpoint(true), "http://127.0.0.1:3000/api/keygen-validate");
    assert_eq!(license_endpoint(false), "https://seoder.io/api/keygen-validate");
    assert_eq!(license_body("K1"), r#"{"key": "K1"}"#);
    assert!(license_accepted(true, true));
    assert!(!license_accepted(true, false));
    assert!(needs_validation("k", false));
    assert!(!needs_validation("", false));
    assert!(!needs_validation("k", true));
}

#[test]
fn panel_script() {
    assert_eq!(
        raw_html(Some("ws://1.2.3.4:8080")),
        r#"<script>const sock = new WebSocket("ws://1.2.3.4:8080");</script>"#
    );
    assert!(raw_html(None).contains("ws://127.0.0.1:8080"));
}

#[test]
fn file_names_like_std_path() {
    for p in ["", "/", ".", "..", "a", "/a/b.txt", "a/", "a//b", "./x/.", "a/..", "/..", "a/./b/", "...", "a/.b", " / x "] {
        let expected = std::path::Path::new(p).file_name().map(|n| n.to_string_lossy().into_owned());
        assert_eq!(file_name_of(p), expected, "{:?}", p);
    }
}
