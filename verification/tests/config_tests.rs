use taskmaster::error::Error;
use taskmaster::error::IsErr;
use taskmaster::error::to_io_err;
use taskmaster::logging::LogInfo;
use taskmaster::program::default_umask;
use taskmaster::program::parse_umask;
use taskmaster::program::split_cmd_and_args;
use taskmaster::program::u8_to_string;
use taskmaster::program::AutoRestart;
use taskmaster::program::Output;
use taskmaster::program::Program;
use taskmaster::program::StopSignal;
use taskmaster::programs::Programs;

fn record(name: &str, num_procs: u8, umask: &str) -> Program {
    Program {
        name: String::from(name),
        cmd: (String::from("/bin/sleep"), vec![String::from("5")]),
        num_procs,
        auto_start: true,
        auto_restart: AutoRestart::Unexpected,
        exitcodes: vec![0],
        start_retries: 3,
        start_secs: 1,
        stop_signal: StopSignal::Term,
        stop_time: 1,
        env: None,
        working_dir: String::from("."),
        umask: String::from(umask),
        stdout: Output::Auto,
        stderr: Output::Auto,
        children: vec![],
    }
}

#[test]
fn test_split_cmd() {
    let cmd_str = "/usr/local/bin/nginx -c /etc/nginx/test.conf";
    let cmd = split_cmd_and_args(cmd_str);
    assert_eq!(cmd.0, "/usr/local/bin/nginx");
}

#[test]
fn test_split_args() {
    let cmd_str = "/usr/local/bin/nginx -c /etc/nginx/test.conf";
    let cmd = split_cmd_and_args(cmd_str);
    assert_eq!(cmd.1, vec!["-c", "/etc/nginx/test.conf"]);
}

#[test]
fn test_deserialize_octal_string() {
    // A valid octal string
    let s = "0o755".to_string();
    let result = parse_umask(&s);
    assert_eq!(result, Some(0o755));

    // An invalid octal string
    let s = "0o999".to_string();
    let result = parse_umask(&s);
    assert!(result.is_none());

    // An invalid octal string
    let s = "898".to_string();
    let result = parse_umask(&s);
    assert!(result.is_none());
}

#[test]
fn umask_default_and_values() {
    assert_eq!(default_umask(), "0o022");
    assert_eq!(parse_umask(&String::from("0o022")), Some(0o022));
    assert_eq!(parse_umask(&String::from("022")), Some(0o022));
    assert_eq!(parse_umask(&String::from("7")), Some(7));
    assert_eq!(parse_umask(&String::from("0o")), None);
    assert_eq!(parse_umask(&String::from("")), None);
    assert_eq!(parse_umask(&String::from("0o7777")), None);
}

#[test]
fn decimal_rendering() {
    assert_eq!(u8_to_string(0), "0");
    assert_eq!(u8_to_string(7), "7");
    assert_eq!(u8_to_string(42), "42");
    assert_eq!(u8_to_string(255), "255");
}

#[test]
fn from_entries_stamps_names() {
    let entries = vec![
        (String::from("web"), record("whatever", 2, "0o022")),
        (String::from("db"), record("", 1, "022")),
    ];
    let ps = Programs::from_entries(entries).unwrap();
    assert_eq!(ps.programs.len(), 2);
    assert_eq!(ps.programs[0].name, "web");
    assert_eq!(ps.programs[1].name, "db");
    assert_eq!(ps.programs[0].num_procs, 2);
}

#[test]
fn from_entries_rejects_duplicates() {
    let entries = vec![
        (String::from("web"), record("a", 1, "0o022")),
        (String::from("web"), record("b", 1, "0o022")),
    ];
    match Programs::from_entries(entries) {
        Err(Error::De(_)) => {}
        _ => panic!("duplicate keys must be rejected"),
    }
}

#[test]
fn from_entries_rejects_zero_replicas() {
    let entries = vec![(String::from("web"), record("a", 0, "0o022"))];
    match Programs::from_entries(entries) {
        Err(Error::De(_)) => {}
        _ => panic!("a zero replica count must be rejected"),
    }
}

#[test]
fn from_entries_rejects_bad_umask() {
    let entries = vec![(String::from("web"), record("a", 1, "0o999"))];
    match Programs::from_entries(entries) {
        Err(Error::De(_)) => {}
        _ => panic!("an invalid umask must be rejected"),
    }
}

#[test]
fn config_path_takes_first_token() {
    assert_eq!(
        Programs::config_path(&String::from("/etc/taskmaster.yaml")).unwrap(),
        "/etc/taskmaster.yaml"
    );
    match Programs::config_path(&String::from("")) {
        Err(Error::NoFilenameProvided) => {}
        _ => panic!("an empty value holds no filename"),
    }
    match Programs::config_path(&String::from("/a.yaml extra")) {
        Err(Error::TooManyArguments) => {}
        _ => panic!("a second token is a hard error"),
    }
}

#[test]
fn spawn_spec_resolves_outputs_and_umask() {
    let mut p = record("web", 1, "0o027");
    p.stdout = Output::Auto;
    p.stderr = Output::File(String::from("/tmp/web.err"));
    p.env = Some(vec![(String::from("K"), String::from("V"))]);
    let spec = p.spawn_spec(2);
    assert_eq!(spec.cmd, "/bin/sleep");
    assert_eq!(spec.args, vec![String::from("5")]);
    assert_eq!(spec.working_dir, ".");
    assert_eq!(spec.env, vec![(String::from("K"), String::from("V"))]);
    assert_eq!(spec.umask, 0o027);
    match spec.stdout {
        Output::File(p) => assert_eq!(p, "/var/log/taskmaster/web_2.out"),
        _ => panic!("auto stdout must resolve to the standard log path"),
    }
    match spec.stderr {
        Output::File(p) => assert_eq!(p, "/tmp/web.err"),
        _ => panic!("a file stderr must stay itself"),
    }
}

#[test]
fn fd_output_stays_itself() {
    let mut p = record("web", 1, "0o022");
    p.stdout = Output::Fd(1);
    let spec = p.spawn_spec(0);
    match spec.stdout {
        Output::Fd(n) => assert_eq!(n, 1),
        _ => panic!("an inherited descriptor must stay itself"),
    }
}

#[test]
fn error_messages_render() {
    assert_eq!(
        Error::WaitError(String::from("gone")).message(),
        "Error waiting for child status : gone"
    );
    assert_eq!(Error::NoFilenameProvided.message(), "No filename provided");
    assert_eq!(
        to_io_err("open", "denied").message(),
        "IO Error : open: denied"
    );
    assert_eq!(
        Error::Read(String::from("gone")).message(),
        "Error reading file : gone"
    );
    assert_eq!(
        Error::ConfigFileNotFound(String::from("x.yaml")).message(),
        "Config file not found : x.yaml"
    );
    assert_eq!(
        Error::ConfigEnvVarNotFound(String::from("unset")).message(),
        "Config env var not found : unset"
    );
    assert_eq!(Error::TooManyArguments.message(), "Too many arguments");
}

#[test]
fn is_err_sentinels() {
    assert!((-1i32).is_err());
    assert!(!0i32.is_err());
    assert!((-1i64).is_err());
    assert!((-1isize).is_err());
    assert!(usize::MAX.is_err());
    assert!(!1usize.is_err());
}

#[test]
fn log_severity_debug_flag() {
    assert!(LogInfo::Debug.is_debug());
    assert!(!LogInfo::Error.is_debug());
    assert!(!LogInfo::Info.is_debug());
    assert!(!LogInfo::Warn.is_debug());
}
