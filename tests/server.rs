use static_blog::server::{file_response, get_content_type, request_file};

#[test]
fn content_types_by_extension() {
    assert_eq!(get_content_type("output/index.html"), "text/html; charset=utf-8");
    assert_eq!(get_content_type("output/style.css"), "text/css");
    assert_eq!(get_content_type("output/app.js"), "application/javascript");
    assert_eq!(get_content_type("output/a.png"), "image/png");
    assert_eq!(get_content_type("output/a.jpg"), "image/jpeg");
    assert_eq!(get_content_type("output/a.jpeg"), "image/jpeg");
    assert_eq!(get_content_type("output/a.gif"), "image/gif");
    assert_eq!(get_content_type("output/a.svg"), "image/svg+xml");
    assert_eq!(get_content_type("output/favicon.ico"), "image/x-icon");
    assert_eq!(get_content_type("output/readme.txt"), "text/plain");
    assert_eq!(get_content_type("output/noext"), "text/plain");
    assert_eq!(get_content_type("output/.html"), "text/plain");
    assert_eq!(get_content_type("output/dir.css/"), "text/css");
    assert_eq!(get_content_type("output/a.HTML"), "text/plain");
}

#[test]
fn content_type_ignores_trailing_dot_components() {
    assert_eq!(get_content_type("x.css/."), "text/css");
    assert_eq!(get_content_type("x.css/."), get_content_type("x.css"));
    assert_eq!(get_content_type("x.png/.//./"), "image/png");
    assert_eq!(get_content_type("."), "text/plain");
    assert_eq!(get_content_type("x.css/.."), "text/plain");
    assert_eq!(get_content_type("/."), "text/plain");
}

#[test]
fn root_request_maps_to_index() {
    assert_eq!(request_file("GET / HTTP/1.1\r\nHost: x\r\n\r\n"), "output/index.html");
    assert_eq!(request_file(""), "output/index.html");
    assert_eq!(request_file("GET"), "output/index.html");
    assert_eq!(request_file("GET ///"), "output/index.html");
}

#[test]
fn path_request_maps_under_output() {
    assert_eq!(request_file("GET /hello.html HTTP/1.1\r\n"), "output/hello.html");
    assert_eq!(request_file("  GET   //style.css  HTTP/1.1"), "output/style.css");
    assert_eq!(request_file("GET /a/b.png HTTP/1.1\nGET /other"), "output/a/b.png");
}

#[test]
fn ok_response_counts_bytes() {
    let r = file_response("output/x.html", Some("é"));
    assert_eq!(r, "HTTP/1.1 200 OK\r\nContent-Type: text/html; charset=utf-8\r\nContent-Length: 2\r\n\r\né");
    let r = file_response("output/x.css", Some(""));
    assert_eq!(r, "HTTP/1.1 200 OK\r\nContent-Type: text/css\r\nContent-Length: 0\r\n\r\n");
    let body = "a".repeat(1234);
    let r = file_response("output/x", Some(&body));
    assert!(r.starts_with("HTTP/1.1 200 OK\r\nContent-Type: text/plain\r\nContent-Length: 1234\r\n\r\n"));
}

#[test]
fn missing_file_gives_404() {
    let r = file_response("output/missing.html", None);
    assert!(r.starts_with("HTTP/1.1 404 NOT FOUND\r\nContent-Type: text/html\r\nContent-Length: "));
    let body = r.split("\r\n\r\n").nth(1).unwrap();
    assert!(body.contains("<h1>404 Not Found</h1>"));
    assert!(r.contains(&format!("Content-Length: {}\r\n", body.len())));
}
