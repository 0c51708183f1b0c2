use pesn::{get_config_dir, get_config_file, get_pid_json_dir, get_pid_json_file};

#[test]
fn config_dir_sits_under_home() {
    assert_eq!(get_config_dir("/home/u"), "/home/u/.config/pesn");
}

#[test]
fn config_file_is_a_yml_under_the_config_dir() {
    assert_eq!(get_config_file("/home/u"), "/home/u/.config/pesn/config.yml");
}

#[test]
fn pid_json_dir_sits_under_the_config_dir() {
    assert_eq!(get_pid_json_dir("/home/u"), "/home/u/.config/pesn/pids");
}

#[test]
fn pid_json_file_is_named_after_the_pid() {
    assert_eq!(
        get_pid_json_file("/home/u", 42),
        "/home/u/.config/pesn/pids/42.json"
    );
    assert_eq!(
        get_pid_json_file("/home/u", 0),
        "/home/u/.config/pesn/pids/0.json"
    );
}
