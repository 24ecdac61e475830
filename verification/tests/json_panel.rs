use seoder::panel::{campaign_creation, engine_files, parse_panel_command, raw_html, PanelCommand};
use seoder::web::engine::Eng;

#[test]
fn json_panel_page() {
    let html = raw_html();
    assert!(html.contains("<title>Spider program</title>"));
    assert!(html.contains("ws://127.0.0.1:8080"));
}

#[test]
fn json_panel_commands() {
    assert!(matches!(parse_panel_command("feed"), Some(PanelCommand::Feed)));
    assert!(matches!(parse_panel_command("run-all-campaigns"), Some(PanelCommand::RunAllCampaigns)));
    assert!(matches!(parse_panel_command("list-campaigns x"), Some(PanelCommand::ListCampaigns)));
    match parse_panel_command("create-campaign {\"name\": \"a b\"}") {
        Some(PanelCommand::CreateCampaign(arg)) => assert_eq!(arg, "{\"name\": \"a b\"}"),
        _ => panic!("expected a campaign"),
    }
    assert!(parse_panel_command("nothing").is_none());
}

#[test]
fn json_panel_campaigns() {
    let c = campaign_creation("{\"name\": \"shop\", \"engine\": \"fast\"}").unwrap();
    assert_eq!(c.dir, "_db/campaigns/shop");
    assert_eq!(c.valid_dir, "_db/campaigns/shop/valid");
    assert_eq!(c.config_file, "_db/campaigns/shop/config.txt");
    assert_eq!(c.config_text, "engine fast");
    let c = campaign_creation("{\"name\": \"shop\"}").unwrap();
    assert_eq!(c.config_text, "engine default");
    assert!(campaign_creation("{\"engine\": \"fast\"}").is_none());
    assert!(campaign_creation("not json").is_none());
    let eng = Eng { name: "e".into(), paths: "/a,/b".into(), patterns: "x".into() };
    let (dir, pf, pt, qf, qt) = engine_files(&eng).unwrap();
    assert_eq!((dir.as_str(), pf.as_str(), pt.as_str()), ("_engines_/e", "_engines_/e/paths.txt", "/a\n/b\n"));
    assert_eq!((qf.as_str(), qt.as_str()), ("_engines_/e/patterns.txt", "x\n"));
}
