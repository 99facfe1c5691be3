use soundsync::server::{
    could_be_file_name_exec, listed_files, plain_payload, remote_config_body, requested_name_exec, route_request,
    route_with_verdict, RemoteRoute, RequestMethod,
};

#[test]
fn routes() {
    assert_eq!(route_request(RequestMethod::Get, "/"), RemoteRoute::Page);
    assert_eq!(route_request(RequestMethod::Get, "/status"), RemoteRoute::Status);
    assert_eq!(route_request(RequestMethod::Post, "/send"), RemoteRoute::Send);
    assert_eq!(route_request(RequestMethod::Options, "/anything"), RemoteRoute::Preflight);
    assert_eq!(route_request(RequestMethod::Get, "/files"), RemoteRoute::Files);
    assert_eq!(route_request(RequestMethod::Post, "/"), RemoteRoute::NotFound);
    assert_eq!(route_request(RequestMethod::Other, "/files"), RemoteRoute::NotFound);
    assert_eq!(route_request(RequestMethod::Get, "/nope"), RemoteRoute::NotFound);
    assert_eq!(route_request(RequestMethod::Get, "/remote-config"), RemoteRoute::RemoteConfig);
    assert_eq!(route_request(RequestMethod::Post, "/remote-config"), RemoteRoute::NotFound);
}

#[test]
fn remote_config_reports_language() {
    assert_eq!(remote_config_body("de"), "{\"language\":\"de\"}");
    assert_eq!(remote_config_body("p\"l"), "{\"language\":\"p\\\"l\"}");
}

#[test]
fn names_outside_the_folder_are_refused() {
    assert_eq!(route_request(RequestMethod::Get, "/download/..%2F..%2Fetc%2Fpasswd"), RemoteRoute::NotFound);
    assert_eq!(route_request(RequestMethod::Get, "/download/%2Fetc%2Fpasswd"), RemoteRoute::NotFound);
    assert_eq!(route_request(RequestMethod::Delete, "/delete/a%2F..%2F..%2Fx"), RemoteRoute::NotFound);
    assert_eq!(route_request(RequestMethod::Get, "/download/.."), RemoteRoute::NotFound);
    assert_eq!(route_request(RequestMethod::Get, "/download/."), RemoteRoute::NotFound);
    assert_eq!(route_request(RequestMethod::Get, "/download/"), RemoteRoute::NotFound);
    assert_eq!(
        route_request(RequestMethod::Get, "/download/..hidden.mp3"),
        RemoteRoute::Download("..hidden.mp3".to_string())
    );
    assert!(could_be_file_name_exec("song.mp3"));
    assert!(could_be_file_name_exec("a:b.mp3"));
    assert!(!could_be_file_name_exec("."));
    assert!(!could_be_file_name_exec("a/b"));
}

#[test]
fn platform_verdict_decides_other_names() {
    // A name with a colon or a backslash is one entry on some platforms only.
    assert_eq!(
        route_with_verdict(RequestMethod::Get, "/download/a%3Ab.mp3", true),
        RemoteRoute::Download("a:b.mp3".to_string())
    );
    assert_eq!(route_with_verdict(RequestMethod::Get, "/download/C%3A%5Cboot.ini", false), RemoteRoute::NotFound);
    assert_eq!(route_with_verdict(RequestMethod::Delete, "/delete/..%5Csecret.txt", false), RemoteRoute::NotFound);
    assert_eq!(
        route_with_verdict(RequestMethod::Delete, "/delete/..%5Csecret.txt", true),
        RemoteRoute::Delete("..\\secret.txt".to_string())
    );
    assert_eq!(route_with_verdict(RequestMethod::Get, "/status", false), RemoteRoute::Status);
    assert_eq!(route_with_verdict(RequestMethod::Get, "/download/%2Fx", true), RemoteRoute::NotFound);
    assert_eq!(
        requested_name_exec(RequestMethod::Delete, "/delete/My%20Song.mp3").as_deref(),
        Some("My Song.mp3")
    );
    assert_eq!(requested_name_exec(RequestMethod::Get, "/delete/x"), None);
}
