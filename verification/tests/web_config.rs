use seoder::text::text_lines;
use seoder::web::config_file::{config, default_config, get_file_value, init_config_text, write_config};

fn lines(v: &[&str]) -> Vec<String> {
    v.iter().map(|s| s.to_string()).collect()
}

#[test]
fn write_then_read_back() {
    let current = lines(&["timeout 15", "proxy false", "target /data/files/urls-input.txt"]);
    let text = write_config("proxy", "true", &current).unwrap();
    assert_eq!(text, "timeout 15\nproxy true\ntarget /data/files/urls-input.txt");
    let back = text_lines(&text);
    assert_eq!(get_file_value(&back, "proxy"), "true");
    assert_eq!(get_file_value(&back, "timeout"), "15");
}

#[test]
fn write_adds_missing_key_and_drops_short_lines() {
    let current = lines(&["lonely", "buffer 50 extra"]);
    let text = write_config("license", "abc", &current).unwrap();
    assert_eq!(text, "buffer 50\nlicense abc");
}

#[test]
fn write_nothing_for_empty_input() {
    assert_eq!(write_config("proxy", "", &lines(&["proxy true"])), None);
}

#[test]
fn write_to_empty_file() {
    assert_eq!(write_config("buffer", "10", &Vec::new()).unwrap(), "buffer 10");
    assert_eq!(write_config("", "10", &Vec::new()).unwrap(), "");
}

#[test]
fn file_value_takes_last_two_field_line() {
    let l = lines(&["target a", "target b c", "target d", "x y"]);
    assert_eq!(get_file_value(&l, "target"), "d");
    assert_eq!(get_file_value(&l, "missing"), "");
}

#[test]
fn panel_config_view() {
    let l = lines(&[
        "timeout 20",
        "buffer lots",
        "proxy true",
        "target /my dir/files/list.txt",
    ]);
    let v = config(&l, "/my dir/files/");
    assert_eq!(v.timeout, 20);
    assert_eq!(v.buffer, 50);
    assert!(v.proxy);
    // three fields: the second and third are joined without a space, then
    // the files folder without spaces is taken off
    assert_eq!(v.target, "list.txt");
    let empty = config(&Vec::new(), "/f");
    assert_eq!((empty.timeout, empty.buffer, empty.proxy), (50, 50, false));
    assert_eq!(empty.target, "/f/urls-input.txt");
    let bad = config(&lines(&["timeout 70000"]), "/f");
    assert_eq!(bad.timeout, 15);
}

#[test]
fn first_config_text() {
    assert_eq!(
        default_config("/d/seoder/files/"),
        "timeout 15\nbuffer false\nproxy false\ntor false\nlicense false\ntarget /d/seoder/files/urls-input.txt"
    );
}

#[test]
fn write_twice_is_write_once() {
    let current = lines(&["timeout 15", "short", "buffer 50 extra", "proxy false"]);
    let once = write_config("target", "/f/my list.txt", &current).unwrap();
    let twice = write_config("target", "/f/my list.txt", &text_lines(&once)).unwrap();
    assert_eq!(once, "timeout 15\nbuffer 50\nproxy false\ntarget /f/my list.txt");
    assert_eq!(twice, once);
    let once = write_config("proxy", "true", &current).unwrap();
    assert_eq!(write_config("proxy", "true", &text_lines(&once)).unwrap(), once);
    // later pieces of a value without a space are dropped on the second write
    let once = write_config("license", "a\nb", &lines(&["timeout 15"])).unwrap();
    assert_eq!(once, "timeout 15\nlicense a\nb");
    assert_eq!(write_config("license", "a\nb", &text_lines(&once)).unwrap(), once);
    // one with a space comes back as a line of its own
    let once = write_config("license", "a\nc d", &lines(&["timeout 15"])).unwrap();
    assert_ne!(write_config("license", "a\nc d", &text_lines(&once)).unwrap(), once);
}

#[test]
fn carriage_return_read_back_on_last_line() {
    // an appended key is the file's last line, which keeps its carriage return
    let text = write_config("license", "abc\r", &lines(&["timeout 15"])).unwrap();
    assert_eq!(get_file_value(&text_lines(&text), "license"), "abc\r");
    // on an earlier line the carriage return goes with the line break
    let text = write_config("license", "abc\r", &lines(&["license x", "timeout 15"])).unwrap();
    assert_eq!(get_file_value(&text_lines(&text), "license"), "abc");
}

#[test]
fn config_created_once() {
    assert_eq!(init_config_text(false, "/f/"), Some(default_config("/f/")));
    assert_eq!(init_config_text(true, "/f/"), None);
}
