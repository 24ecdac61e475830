use seoder::content::{content_texts, CONTENT_SELECTOR};
use seoder::patterns::PatternSet;
use seoder::seoder::configuration::setup;
use seoder::seoder::fs::{campaign_folder, control_step, match_target, run_files, ControlStep, MatchTarget, StoreLoop};
use seoder::seoder::utils::{
    build_error, log, logd, page_response, page_url, static_truthy_string, ErrorFlags,
    FetchOutcome,
};
use seoder::seoder::website::{path_names, proxies_path, site_list_path, spawn_limit_for, Website};
use seoder::seoder::{bootstrap_input_path, entry_program, ResponseOutFileType};
use seoder::spider::configuration::Configuration as SpiderConfiguration;
use seoder::spider::utils::{listing_response, listing_url, ListingOutcome};
use seoder::spider::website::{channel_capacity, plan_listing, setup_query, Website as SpiderWebsite};
use seoder::jsoncrawler::fs::{BodyRoute, OutputFile};
use seoder::jsoncrawler::JsonOutFileType;

fn lines(v: &[&str]) -> Vec<String> {
    v.iter().map(|s| s.to_string()).collect()
}

#[test]
fn program_paths() {
    let (e, f, c, b) = entry_program("/home/u/.local/share");
    assert_eq!(e, "/home/u/.local/share/seoder/engines/");
    assert_eq!(f, "/home/u/.local/share/seoder/files/");
    assert_eq!(c, "/home/u/.local/share/seoder/config.txt");
    assert_eq!(b, "/home/u/.local/share/seoder/");
    assert_eq!(bootstrap_input_path(&f), "/home/u/.local/share/seoder/files/urls-input.txt");
    assert_eq!(proxies_path(&b), "/home/u/.local/share/seoder/proxies.txt");
    assert_eq!(site_list_path(&f, "urls-input.txt"), "/home/u/.local/share/seoder/files/urls-input.txt");
}

#[test]
fn website_defaults() {
    assert_eq!(Website::new("").path, "urls-input.txt");
    assert_eq!(Website::new("list.txt").path, "list.txt");
    assert!(!Website::new("").engine.campaign.source_match);
}

#[test]
fn seoder_setup() {
    let (q, t, b, p, e) = setup(true, &lines(&["timeout 5", "buffer 7", "proxy true"]), &lines(&["/a"]), &Vec::new());
    assert_eq!((q.as_str(), t, b, p), ("", 5, 7, true));
    assert_eq!(e.campaign.paths, lines(&["/a"]));
    let (_, _, _, _, e) = setup(false, &Vec::new(), &lines(&["/a"]), &Vec::new());
    assert!(e.campaign.paths.is_empty());
}

#[test]
fn error_reports() {
    assert_eq!(static_truthy_string(true), "true");
    assert_eq!(static_truthy_string(false), "false");
    let flags = ErrorFlags { connect: true, redirect: false, status: false, timeout: true, request: false };
    assert_eq!(
        build_error("s.com", &flags),
        "- error s.com - connect_error: true - redirect_error false - status_error: false - timeout_error: true - request_error: false"
    );
    assert_eq!(page_url("s.com", "/shop"), "http://s.com/shop");
    assert_eq!(page_response("s.com", FetchOutcome::Body("<p>".into())), ("<p>".to_string(), ResponseOutFileType::Valid));
    assert_eq!(page_response("s.com", FetchOutcome::OtherStatus), (String::new(), ResponseOutFileType::Unknown));
    let (r, k) = page_response("s.com", FetchOutcome::SendError(flags));
    assert!(r.starts_with("- error s.com"));
    assert_eq!(k, ResponseOutFileType::Error);
    let flags = ErrorFlags { connect: false, redirect: false, status: false, timeout: false, request: true };
    assert_eq!(page_response("s.com", FetchOutcome::BodyError(flags)).1, ResponseOutFileType::Invalid);
    assert_eq!(log("gathering json {}", "s.com"), "gathering json {} - s.com");
    assert_eq!(logd("x"), "x");
}

#[test]
fn campaign_runs() {
    let set = PatternSet::new(&lines(&["sale"])).unwrap();
    let page = "<html><body><p>big</p><p>sale</p></body></html>";
    assert_eq!(match_target("s.com", page, false, &set), Ok((MatchTarget::Valid, "s.com\n".to_string())));
    assert_eq!(match_target("s.com", "<html><body>none</body></html>", false, &set).unwrap().0, MatchTarget::Invalid);
    let split_word = "<html><body><p>sa</p><p>le</p></body></html>";
    // text matching joins the elements' texts
    assert_eq!(match_target("s.com", split_word, false, &set).unwrap().0, MatchTarget::Valid);
    // source matching reads the markup
    assert_eq!(match_target("s.com", split_word, true, &set).unwrap().0, MatchTarget::Invalid);
    assert_eq!(match_target("s.com", "", true, &set).unwrap().0, MatchTarget::Errors);
    assert_eq!(match_target("s.com", "- error x", true, &set).unwrap().0, MatchTarget::Errors);
    assert_eq!(control_step(1), ControlStep::Wait);
    assert_eq!(control_step(2), ControlStep::Stop);
    assert_eq!(control_step(0), ControlStep::Proceed);
    let ((v, vl), (i, il), (e, el)) = run_files("/e/shop");
    assert_eq!((v.as_str(), vl.as_str()), ("/e/shop/valid", "/e/shop/valid/links.txt"));
    assert_eq!((i.as_str(), il.as_str()), ("/e/shop/invalid", "/e/shop/invalid/links.txt"));
    assert_eq!((e.as_str(), el.as_str()), ("/e/shop/errors", "/e/shop/errors/links.txt"));
    assert_eq!(campaign_folder("/e/", "shop"), "/e/shop");
}

#[test]
fn campaign_paths_and_limits() {
    assert_eq!(path_names(&lines(&["/a"]), &lines(&["/b"])), lines(&["/a"]));
    assert_eq!(path_names(&Vec::new(), &lines(&["/b"])), lines(&["/b"]));
    assert_eq!(path_names(&Vec::new(), &Vec::new()), lines(&[""]));
    assert_eq!(spawn_limit_for(true, 8), Some(4));
    assert_eq!(spawn_limit_for(false, 8), Some(264));
    assert_eq!(spawn_limit_for(false, usize::MAX), None);
}

#[test]
fn first_crawler() {
    assert_eq!(SpiderConfiguration::new().delay, 250);
    let w = SpiderWebsite::new("urls-input.txt");
    assert_eq!(w.path.as_deref(), Some("urls-input.txt"));
    assert_eq!(setup_query(&lines(&["query users"])), "users");
    assert_eq!(setup_query(&lines(&["query nope"])), "posts");
    assert_eq!(setup_query(&Vec::new()), "posts");
    assert_eq!(listing_url("s.com", "users"), "http://s.com/wp-json/wp/v2/users?per_page=100");
    assert_eq!(channel_capacity(2), 8);
    assert_eq!(channel_capacity(4), 8);
    assert_eq!(channel_capacity(16), 32);
    assert_eq!(listing_response(ListingOutcome::SendError), (String::new(), JsonOutFileType::Error));
    assert_eq!(listing_response(ListingOutcome::BodyError).1, JsonOutFileType::Invalid);
    let p = plan_listing("s.com", "{\"a\":1}", JsonOutFileType::Valid);
    assert_eq!(p.line, "s.com\n");
    assert_eq!(p.body, BodyRoute::Json);
    let p = plan_listing("s.com", "", JsonOutFileType::Unknown);
    assert_eq!(p.status_file, Some(OutputFile::AllOthers));
    assert_eq!(p.body, BodyRoute::Skip);
}

#[test]
fn content_selector_picks_body_children() {
    assert_eq!(CONTENT_SELECTOR, "body > *:not(script):not(noscript):not(css):not(style):not(link)");
    let page = "<html><head><title>t</title></head><body><p>one <b>two</b></p><script>s</script>\
                <style>x</style><noscript>n</noscript><div>three</div></body></html>";
    assert_eq!(content_texts(page), Ok(vec!["one two".to_string(), "three".to_string()]));
    assert_eq!(content_texts(""), Ok(Vec::<String>::new()));
}

#[test]
fn store_loop_pause_and_shutdown() {
    let mut control = StoreLoop::new();
    assert!(!control.is_stopped());
    assert_eq!(control.observe(0), ControlStep::Proceed);
    assert_eq!(control.observe(1), ControlStep::Wait);
    assert_eq!(control.observe(1), ControlStep::Wait);
    assert_eq!(control.observe(0), ControlStep::Proceed);
    assert_eq!(control.observe(2), ControlStep::Stop);
    assert!(control.is_stopped());
    // once shut down, a resumed flag changes nothing
    assert_eq!(control.observe(0), ControlStep::Stop);
    assert_eq!(control.observe(1), ControlStep::Stop);
}
