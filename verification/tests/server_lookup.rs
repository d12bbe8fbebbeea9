use ctt::server::{api_endpoint, login_url, server_url_from_conf};

#[test]
fn finds_server_line() {
    let conf = "PBS_EXEC=/opt/pbs\nPBS_SERVER=desched1.hpc.example.edu\nPBS_START_SERVER=0\n";
    assert_eq!(server_url_from_conf(conf), Some("https://desched1:8000".to_string()));
}

#[test]
fn last_server_line_wins() {
    let conf = "PBS_SERVER=first.a.b\nPBS_HOME=/var/spool\nPBS_SERVER=second.c\n";
    assert_eq!(server_url_from_conf(conf), Some("https://second:8000".to_string()));
}

#[test]
fn server_line_with_crlf() {
    let conf = "PBS_SERVER=host\r\nOTHER=1\r\n";
    assert_eq!(server_url_from_conf(conf), Some("https://host:8000".to_string()));
}

#[test]
fn server_line_without_newline_keeps_carriage_return() {
    let conf = "PBS_SERVER=host\r";
    assert_eq!(server_url_from_conf(conf), Some("https://host\r:8000".to_string()));
}

#[test]
fn host_stops_at_second_equals() {
    let conf = "PBS_SERVER=alpha=beta.gamma\n";
    assert_eq!(server_url_from_conf(conf), Some("https://alpha:8000".to_string()));
}

#[test]
fn no_server_line() {
    assert_eq!(server_url_from_conf("PBS_EXEC=/opt/pbs\n"), None);
    assert_eq!(server_url_from_conf(""), None);
}

#[test]
fn server_line_without_equals() {
    assert_eq!(server_url_from_conf("PBS_SERVER=a\n# PBS_SERVER unset\n"), None);
}

#[test]
fn empty_host() {
    assert_eq!(server_url_from_conf("PBS_SERVER=\n"), Some("https://:8000".to_string()));
}

#[test]
fn endpoints() {
    assert_eq!(api_endpoint("https://h:8000"), "https://h:8000/api");
    assert_eq!(login_url("https://h:8000"), "https://h:8000/login");
}
