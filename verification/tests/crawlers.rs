use seoder::client::{header_pairs, user_agent_for};
use seoder::jsoncrawler::configuration::{non_empty, read_config, setup, Configuration};
use seoder::jsoncrawler::fs::{
    after_jsonl_write, campaign_dir, campaign_patterns, match_line, plan_store, valid_links_paths,
    BodyRoute, OutputFile,
};
use seoder::jsoncrawler::website::{soft_permits, spawn_limit, spawn_limit_for, Website};
use seoder::jsoncrawler::{crawl_targets, JsonOutFileType};
use seoder::patterns::PatternSet;
use seoder::schedule::ThreadBudget;

fn lines(v: &[&str]) -> Vec<String> {
    v.iter().map(|s| s.to_string()).collect()
}

#[test]
fn website_output_paths() {
    let website = Website::new("urls-input.txt");
    assert_eq!(website.path, "urls-input.txt");
    assert_eq!(website.jsonl_output_path, "output.jsonl");
    assert_eq!(website.ok_txt_output_path, "ok-valid_json.txt");
    assert_eq!(website.okv_txt_output_path, "ok-not_valid_json.txt");
    assert_eq!(website.cr_txt_output_path, "connection_error.txt");
    assert_eq!(website.al_txt_output_path, "all-others.txt");
    assert!(website.engine.campaign.name.is_empty());
}

#[test]
fn configuration_user_agent() {
    let mut website = Website::new("https://choosealicense.com");
    assert_eq!(Configuration::new().user_agent, "");
    website.configuration.user_agent = "Android".to_string();
    assert_eq!(user_agent_for(&website.configuration.user_agent), "Android");
    assert!(!user_agent_for("").is_empty());
}

#[test]
fn setup_reads_config() {
    let cfg = lines(&["query users", "timeout 30", "buffer x", "proxy true", "page_limit 10"]);
    let (query, timeout, buffer, proxy, engine) = setup(false, &cfg, &Vec::new(), &Vec::new());
    assert_eq!(query, "/wp-json/wp/v2/users?per_page=10");
    assert_eq!((timeout, buffer, proxy), (30, 100, true));
    assert!(engine.campaign.paths.is_empty());
    let (query, timeout, buffer, proxy, _) = setup(false, &Vec::new(), &Vec::new(), &Vec::new());
    assert_eq!(query, "/wp-json/wp/v2/posts?per_page=100");
    assert_eq!((timeout, buffer, proxy), (15, 100, false));
    let (query, _, _, _, _) = setup(false, &lines(&["query everything", "query  pages"]), &Vec::new(), &Vec::new());
    assert_eq!(query, "/wp-json/wp/v2/posts?per_page=100");
}

#[test]
fn setup_with_engines() {
    let (query, _, _, _, engine) = setup(
        true,
        &lines(&["query users"]),
        &lines(&["/shop", "", "/cart"]),
        &lines(&["buy"]),
    );
    assert_eq!(query, "");
    assert_eq!(engine.campaign.paths, lines(&["/shop", "/cart"]));
    assert_eq!(engine.campaign.patterns, lines(&["buy"]));
    assert_eq!(read_config(&lines(&["timeout 99999999999999999999"]), false).timeout, 15);
    assert_eq!(non_empty(&lines(&["", "a", ""])), lines(&["a"]));
}

#[test]
fn crawl_arguments() {
    assert_eq!(crawl_targets(&lines(&["prog"])), lines(&["urls-input.txt"]));
    assert_eq!(crawl_targets(&lines(&["prog", "a.txt", "b.txt"])), lines(&["a.txt", "b.txt"]));
}

#[test]
fn store_routing() {
    let p = plan_store("site.com", "- error site.com - connect_error: true", JsonOutFileType::Error);
    assert_eq!(p.line, "site.com - connect_error: true\n");
    assert_eq!(p.status_file, Some(OutputFile::ConnectionError));
    assert_eq!(p.body, BodyRoute::Skip);
    let p = plan_store("site.com", "[{\"id\":1}]", JsonOutFileType::Valid);
    assert_eq!(p.line, "site.com\n");
    assert_eq!(p.status_file, None);
    assert_eq!(p.body, BodyRoute::Json);
    let p = plan_store("site.com", "<html>", JsonOutFileType::Valid);
    assert_eq!(p.body, BodyRoute::NotJson);
    let p = plan_store("site.com", "null", JsonOutFileType::Valid);
    assert_eq!(p.body, BodyRoute::NotJson);
    let p = plan_store("site.com", "", JsonOutFileType::Unknown);
    assert_eq!(p.status_file, Some(OutputFile::AllOthers));
    assert_eq!(p.body, BodyRoute::Skip);
    assert_eq!(after_jsonl_write(true), OutputFile::OkValid);
    assert_eq!(after_jsonl_write(false), OutputFile::OkNotValid);
}

#[test]
fn matching_runs() {
    assert!(PatternSet::new(&lines(&["(unclosed"])).is_none());
    let set = PatternSet::new(&lines(&["buy now"])).unwrap();
    let page = "<html><body><p>please buy</p><div>now</div><script>buy now</script></body></html>";
    assert_eq!(match_line("s.com", page, true, &set), Ok(Some("s.com\n".to_string())));
    // element by element, the words never meet, and scripts are not read
    assert_eq!(match_line("s.com", page, false, &set), Ok(None));
    let page2 = "<html><body><p>Buy now: buy now</p></body></html>";
    assert_eq!(match_line("s.com", page2, false, &set), Ok(Some("s.com\n".to_string())));
    assert_eq!(match_line("s.com", "- error s.com", true, &set), Ok(None));
    assert_eq!(match_line("s.com", "", true, &set), Ok(None));
    let empty = PatternSet::new(&Vec::new()).unwrap();
    assert_eq!(match_line("s.com", page2, true, &empty), Ok(None));
    let own = lines(&["a"]);
    let conf = lines(&["b"]);
    assert_eq!(campaign_patterns(&own, &conf), &own);
    assert_eq!(campaign_patterns(&Vec::new(), &conf), &conf);
    assert_eq!(campaign_dir("shop"), "_engines_/campaigns/shop");
    let (v, l) = valid_links_paths("_engines_/campaigns/shop");
    assert_eq!(v, "_engines_/campaigns/shop/valid");
    assert_eq!(l, "_engines_/campaigns/shop/valid/links.txt");
}

#[test]
fn spawn_limits_and_budget() {
    assert_eq!(spawn_limit_for(100, 8), Some(800));
    assert_eq!(spawn_limit_for(usize::MAX, 2), None);
    let (cpus, limit) = spawn_limit(3);
    assert!(cpus >= 1);
    assert_eq!(limit, Some(3 * cpus));
    assert_eq!(soft_permits(10), 2);
    let mut b = ThreadBudget::new(2);
    assert!(b.acquire());
    assert!(b.acquire());
    assert!(!b.acquire());
    assert_eq!(b.count(), 2);
    b.release(true);
    assert_eq!(b.count(), 1);
    b.release(false);
    assert_eq!(b.count(), 1);
    b.release(true);
    b.release(true);
    assert_eq!(b.count(), 0);
    assert_eq!(b.limit(), 2);
}

#[test]
fn header_lines() {
    let pairs = header_pairs(&lines(&["X-Key value", "bad", "a b c", "Accept */*"]));
    assert_eq!(
        pairs,
        vec![("X-Key".to_string(), "value".to_string()), ("Accept".to_string(), "*/*".to_string())]
    );
}
