use qst::config::Config;

#[test]
fn config_sets_options() {
    let vec_args = vec![
        String::from("qst"),
        String::from("--port"),
        String::from("420"),
        String::from("--addr"),
        String::from("192.168.0.1"),
        String::from("--max-threads"),
        String::from("8"),
        String::from("--default-file"),
        String::from("home.html"),
        String::from("--err404-file"),
        String::from("404.html"),
        String::from("--limit-requests"),
        String::from("4"),
    ];
    let config = match Config::build_from_cmdline(vec_args) {
        Ok(config) => config,
        Err(msg) => panic!("Tried valid config, got {msg} instead"),
    };
    assert_eq!(
        config,
        Config {
            port: String::from("420"),
            addr: String::from("192.168.0.1"),
            max_threads: Some(8),
            default_file: String::from("home.html"),
            err404_file: Some(String::from("404.html")),
            limit_requests: Some(4),
        }
    );
}

#[test]
fn config_sets_default_with_empty() {
    let vec_args: Vec<String> = vec![];
    let config = match Config::build_from_cmdline(vec_args) {
        Ok(config) => config,
        Err(msg) => panic!("Tried valid empty config, got {msg} instead"),
    };
    assert_eq!(config, Config::new());
}

#[test]
fn config_sets_default_with_one_arg() {
    let vec_args = vec![String::from("prog_name")];
    let config = match Config::build_from_cmdline(vec_args) {
        Ok(config) => config,
        Err(msg) => panic!("Tried valid empty config, got {msg} instead"),
    };
    assert_eq!(config, Config::new());
}

#[test]
fn config_rejects_unknown_option() {
    let vec_args = vec![
        String::from("qst"),
        String::from("--bogus"),
        String::from("x"),
    ];
    let msg = Config::build_from_cmdline(vec_args).unwrap_err();
    assert_eq!(msg, String::from("No such option: --bogus"));
}

#[test]
fn config_rejects_bad_number() {
    let vec_args = vec![
        String::from("qst"),
        String::from("--max-threads"),
        String::from("abc"),
    ];
    let msg = Config::build_from_cmdline(vec_args).unwrap_err();
    assert_eq!(msg, String::from("abc is not a valid number!"));
}

#[test]
fn config_rejects_zero_threads() {
    let vec_args = vec![
        String::from("qst"),
        String::from("--max-threads"),
        String::from("0"),
    ];
    let msg = Config::build_from_cmdline(vec_args).unwrap_err();
    assert_eq!(msg, String::from("0 is not integer greater then 0!"));
}

#[test]
fn config_rejects_missing_value() {
    let vec_args = vec![String::from("qst"), String::from("--port")];
    let msg = Config::build_from_cmdline(vec_args).unwrap_err();
    assert_eq!(msg, String::from("No value specified for --port"));
}

#[test]
fn config_accepts_zero_request_limit() {
    let vec_args = vec![
        String::from("qst"),
        String::from("-l"),
        String::from("0"),
    ];
    let config = Config::build_from_cmdline(vec_args).unwrap();
    assert_eq!(config.limit_requests, Some(0));
}

#[test]
fn config_accepts_plus_signed_number() {
    let vec_args = vec![
        String::from("qst"),
        String::from("-t"),
        String::from("+8"),
    ];
    let config = Config::build_from_cmdline(vec_args).unwrap();
    assert_eq!(config.max_threads, Some(8));
}
