use rpaper::config::Config;
use rpaper::json::Json;
use rpaper::supervisor::{
    directory_event, needed_directories, react, ConfigWatcher, MpscData, Reaction,
};

fn document(command: &str) -> Json {
    Json::Object(vec![("wall_command".to_string(), Json::Text(command.to_string()))])
}

#[test]
fn request_keeps_the_configuration_of_its_moment() {
    let mut config = Config::new();
    react(&mut config, MpscData::ConfigChanged(Some(document("old {image}")), vec![]), "/home/me");
    let first = match react(&mut config, MpscData::SocketRequest("{}".to_string()), "/home/me") {
        Reaction::Respond(h) => h,
        _ => panic!("a request is answered"),
    };
    react(&mut config, MpscData::ConfigChanged(Some(document("new {image}")), vec![]), "/home/me");
    assert_eq!(first.config.set_command.as_deref(), Some("old {image}"));
    assert_eq!(first.message, "{}");
    let second = match react(&mut config, MpscData::SocketRequest("next".to_string()), "/home/me") {
        Reaction::Respond(h) => h,
        _ => panic!("a request is answered"),
    };
    assert_eq!(second.config.set_command.as_deref(), Some("new {image}"));
}

#[test]
fn change_without_a_document_leaves_the_configuration() {
    let mut config = Config::new();
    react(&mut config, MpscData::ConfigChanged(Some(document("keep")), vec![]), "/home/me");
    match react(&mut config, MpscData::ConfigChanged(None, vec![]), "/home/me") {
        Reaction::Info(m) => assert_eq!(m, "Config changed."),
        _ => panic!("a change is noted"),
    }
    assert_eq!(config.set_command.as_deref(), Some("keep"));
}

#[test]
fn directories_are_reported() {
    let mut config = Config::new();
    match react(&mut config, directory_event(true), "/home/me") {
        Reaction::Info(m) => assert_eq!(m, "Needed directory created."),
        _ => panic!("a made directory is noted"),
    }
    match react(&mut config, directory_event(false), "/home/me") {
        Reaction::Error(m) => assert_eq!(m, "Unable to create needed directory."),
        _ => panic!("a failure is an error"),
    }
    assert_eq!(
        needed_directories("/home/me"),
        vec![
            "/home/me/.cache/rpaper",
            "/home/me/.cache/rpaper/wallpapers",
            "/home/me/.cache/rpaper/rwal",
            "/home/me/.config/rpaper"
        ]
    );
}

#[test]
fn watcher_tells_a_change_of_content_once() {
    let mut w = ConfigWatcher::new(&b"{\"a\":1}".to_vec());
    assert_eq!(w.hash, "015abd7f5cc57a2dd94b7590f04ad8084273905ee33ec5cebeae62276a97f862");
    assert!(!w.changed(&b"{\"a\":1}".to_vec()));
    assert!(w.changed(&b"{\"a\":2}".to_vec()));
    assert!(!w.changed(&b"{\"a\":2}".to_vec()));
    assert!(w.changed(&b"{\"a\":1}".to_vec()));
    assert!(w.changed(&vec![0xff, 0xfe]));
}
