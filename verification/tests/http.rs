use std::io::Result as IoResult;

use qst::http::{path_is_internal, HttpMethod, HttpRequest, HttpResponse, HttpResponseCode};

#[test]
fn parser_returns_request_on_valid() {
    let request = vec![IoResult::Ok(String::from("GET / HTTP/1.1"))];
    let response = HttpRequest::parse_from_lines_iterator(request).unwrap();
    assert_eq!(
        response,
        HttpRequest {
            method: HttpMethod::GET,
            fetch: String::from("/"),
        }
    );

    let request = vec![IoResult::Ok(String::from("GET /index.html"))];
    let response = HttpRequest::parse_from_lines_iterator(request).unwrap();
    assert_eq!(
        response,
        HttpRequest {
            method: HttpMethod::GET,
            fetch: String::from("/index.html"),
        }
    );

    let request = vec![
        IoResult::Ok(String::from("GET / HTTP/1.0")),
        IoResult::Ok(String::from("Host: pudim.com.br")),
    ];
    let response = HttpRequest::parse_from_lines_iterator(request).unwrap();
    assert_eq!(
        response,
        HttpRequest {
            method: HttpMethod::GET,
            fetch: String::from("/"),
        }
    );

    let request = vec![IoResult::Ok(String::from("HEAD /index.html"))];
    let response = HttpRequest::parse_from_lines_iterator(request).unwrap();
    assert_eq!(
        response,
        HttpRequest {
            method: HttpMethod::HEAD,
            fetch: String::from("/index.html"),
        }
    );
}

#[test]
fn parser_returns_bad_request_on_invalid() {
    let request = vec![IoResult::Ok(String::from("GET"))];
    let response = HttpRequest::parse_from_lines_iterator(request).unwrap_err();
    assert_eq!(HttpResponse::bad_request_400(), response);

    let request = vec![IoResult::Ok(String::from(""))];
    let response = HttpRequest::parse_from_lines_iterator(request).unwrap_err();
    assert_eq!(HttpResponse::bad_request_400(), response);

    let request = vec![];
    let response = HttpRequest::parse_from_lines_iterator(request).unwrap_err();
    assert_eq!(HttpResponse::bad_request_400(), response);
}

#[test]
fn parser_returns_not_implemented_on_methods() {
    let request = vec![IoResult::Ok(String::from("POST / HTTP/1.1"))];
    let response = HttpRequest::parse_from_lines_iterator(request).unwrap_err();
    assert_eq!(
        response,
        HttpResponse {
            code: HttpResponseCode::NotImplemented501,
            content: None,
            content_length: None,
        }
    );
}

#[test]
fn parser_skips_leading_whitespace() {
    let request = vec![IoResult::Ok(String::from("  GET\t/x.html  HTTP/1.1"))];
    let response = HttpRequest::parse_from_lines_iterator(request).unwrap();
    assert_eq!(
        response,
        HttpRequest {
            method: HttpMethod::GET,
            fetch: String::from("/x.html"),
        }
    );
}

#[test]
fn response_to_string_creates_correct_responses() {
    let response = HttpResponse {
        code: HttpResponseCode::NotFound404,
        content: None,
        content_length: None,
    };
    assert_eq!(response.to_string(), "HTTP/1.1 404 Not Found\r\n\r\n");

    let response = HttpResponse::bad_request_400();
    assert_eq!(response.to_string(), "HTTP/1.1 400 Bad Request\r\n\r\n");

    let content = "\
<!DOCTYPE html>
<html>
    <head>
    </head>
    <body>
        Hello, World!
    </body>
</html>
";
    let response = HttpResponse {
        code: HttpResponseCode::OK200,
        content: Some(String::from(content)),
        content_length: Some(content.len()),
    };

    assert_eq!(
        response.to_string(),
        String::from(
            "\
HTTP/1.1 200 Ok\r
Content-Length: 99\r
\r
<!DOCTYPE html>
<html>
    <head>
    </head>
    <body>
        Hello, World!
    </body>
</html>
\r
\r
"
        )
    );
}

#[test]
fn http_request_matches_fetch() {
    let forbidden_res = Err(HttpResponse {
        code: HttpResponseCode::Forbbiden403,
        content: None,
        content_length: None,
    });

    let mut request = HttpRequest {
        method: HttpMethod::GET,
        fetch: String::from("/"),
    };

    assert_eq!(
        Ok(String::from("./index.html")),
        request.match_fetch("index.html")
    );

    request.fetch = String::from("/test.js");
    assert_eq!(
        Ok(String::from("./test.js")),
        request.match_fetch("index.html")
    );

    request.fetch = String::from("stuff.css");
    assert_eq!(
        Ok(String::from("./stuff.css")),
        request.match_fetch("index.html")
    );

    request.fetch = String::from("../not_allow.png");
    assert_eq!(forbidden_res, request.match_fetch("index.html"));

    request.fetch = String::from("/not//allow.jpg");
    assert_eq!(forbidden_res, request.match_fetch("index.html"));

    request.fetch = String::from("not_allow/");
    assert_eq!(forbidden_res, request.match_fetch("index.html"));
}

#[test]
fn match_fetch_refuses_to_brew_coffee() {
    let request = HttpRequest {
        method: HttpMethod::GET,
        fetch: String::from("//coffee"),
    };
    let response = request.match_fetch("index.html").unwrap_err();
    assert_eq!(response.code, HttpResponseCode::ImATeapot418);
    let body = response.content.unwrap();
    assert!(!body.is_empty());
    assert_eq!(response.content_length, Some(body.len()));
}

#[test]
fn match_fetch_decodes_escaped_spaces() {
    let request = HttpRequest {
        method: HttpMethod::GET,
        fetch: String::from("/my%20file%20.txt"),
    };
    assert_eq!(
        Ok(String::from("./my file .txt")),
        request.match_fetch("index.html")
    );
}

#[test]
fn match_fetch_is_idempotent() {
    let request = HttpRequest {
        method: HttpMethod::HEAD,
        fetch: String::from("a%20b/c.txt"),
    };
    let first = request.match_fetch("index.html").unwrap();
    let second = request.match_fetch("index.html").unwrap();
    assert_eq!(first, second);
    assert_eq!(first, String::from("./a b/c.txt"));
}

#[test]
fn internal_paths_are_detected() {
    assert!(path_is_internal("./_secret.txt"));
    assert!(!path_is_internal("./visible.txt"));
    assert!(!path_is_internal("./"));
}

#[test]
fn file_read_outcomes_build_responses() {
    let ok = HttpResponse::from_file_read(Some(String::from("hello")), None);
    assert_eq!(ok.code, HttpResponseCode::OK200);
    assert_eq!(ok.content, Some(String::from("hello")));
    assert_eq!(ok.content_length, Some(5));

    let fallback = HttpResponse::from_file_read(None, Some(String::from("gone")));
    assert_eq!(fallback.code, HttpResponseCode::NotFound404);
    assert_eq!(fallback.content, Some(String::from("gone")));
    assert_eq!(fallback.content_length, Some(4));

    let bare = HttpResponse::from_file_read(None, None);
    assert_eq!(bare.code, HttpResponseCode::NotFound404);
    assert_eq!(bare.content, None);
    assert_eq!(bare.content_length, None);
    assert_eq!(bare.to_string(), "HTTP/1.1 404 Not Found\r\n\r\n");
}

#[test]
fn reason_phrases_render() {
    assert_eq!(
        HttpResponseCode::ImATeapot418.to_string(),
        "418 I'm A Teapot"
    );
    assert_eq!(
        HttpResponseCode::HttpVersionNotSupported505.to_string(),
        "505 HTTP Version Not Supported"
    );
    assert_eq!(
        HttpResponseCode::MethodNotAllowed405.to_string(),
        "405 Method Not Allowed"
    );
    assert_eq!(HttpResponseCode::Continue100.to_string(), "100 Continue");
}
