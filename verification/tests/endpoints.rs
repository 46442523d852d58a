use echo_server::handlers::{
    handle_echo, handle_json, handle_not_found, handle_reverse, handle_root, handle_uppercase,
};
use echo_server::message::{Body, Method, Request, Response};

fn post(path: &str, chunks: Vec<Vec<u8>>) -> Request {
    Request { method: Method::Post, path: path.to_string(), body: Body { chunks } }
}

fn text_of(resp: &Response) -> String {
    String::from_utf8(resp.body.bytes()).unwrap()
}

#[test]
fn root_answers_with_instructions() {
    let resp = handle_root();
    assert_eq!(resp.status, 200);
    assert_eq!(resp.body.chunks, vec![b"Try POSTing data to /echo".to_vec()]);
}

#[test]
fn not_found_is_404_and_empty() {
    let resp = handle_not_found();
    assert_eq!(resp.status, 404);
    assert!(resp.body.chunks.is_empty());
    assert!(resp.body.bytes().is_empty());
}

#[test]
fn echo_returns_the_body_unchanged() {
    let resp = handle_echo(post("/echo", vec![b"hello world".to_vec()]));
    assert_eq!(resp.status, 200);
    assert_eq!(resp.body.bytes(), b"hello world".to_vec());
}

#[test]
fn echo_keeps_the_chunks_as_they_came() {
    let chunks = vec![b"ab".to_vec(), Vec::new(), b"cde".to_vec(), vec![0u8, 255u8]];
    let resp = handle_echo(post("/echo", chunks.clone()));
    assert_eq!(resp.status, 200);
    assert_eq!(resp.body.chunks, chunks);
}

#[test]
fn echo_of_an_empty_body_is_empty() {
    let resp = handle_echo(post("/echo", Vec::new()));
    assert_eq!(resp.status, 200);
    assert!(resp.body.bytes().is_empty());
}

#[test]
fn uppercase_maps_ascii_letters() {
    let resp = handle_uppercase(post("/echo/uppercase", vec![b"Hello, World! 123 az".to_vec()]));
    assert_eq!(resp.status, 200);
    assert_eq!(resp.body.bytes(), b"HELLO, WORLD! 123 AZ".to_vec());
}

#[test]
fn uppercase_leaves_bytes_outside_ascii_alone() {
    // "é" is 0xC3 0xA9 in UTF-8; neither byte is an ASCII letter.
    let body = vec![b'a', 0xC3, 0xA9, b'z', 0x80, 0xFF, 0xE1, 0xFA];
    let resp = handle_uppercase(post("/echo/uppercase", vec![body]));
    assert_eq!(resp.body.bytes(), vec![b'A', 0xC3, 0xA9, b'Z', 0x80, 0xFF, 0xE1, 0xFA]);
}

#[test]
fn uppercase_touches_only_a_to_z() {
    // The bytes next to the letters on either side stay: ` (0x60) and { (0x7B).
    let resp = handle_uppercase(post("/echo/uppercase", vec![vec![0x60, 0x61, 0x7A, 0x7B, 0x40, 0x5B]]));
    assert_eq!(resp.body.bytes(), vec![0x60, 0x41, 0x5A, 0x7B, 0x40, 0x5B]);
}

#[test]
fn uppercase_answers_chunk_for_chunk() {
    let resp = handle_uppercase(post("/echo/uppercase", vec![b"ab".to_vec(), b"Cd".to_vec(), Vec::new()]));
    assert_eq!(resp.status, 200);
    assert_eq!(resp.body.chunks, vec![b"AB".to_vec(), b"CD".to_vec(), Vec::new()]);
}

#[test]
fn uppercase_keeps_the_length() {
    let body: Vec<u8> = (0u8..=255u8).collect();
    let resp = handle_uppercase(post("/echo/uppercase", vec![body.clone()]));
    let out = resp.body.bytes();
    assert_eq!(out.len(), body.len());
    for (i, b) in body.iter().enumerate() {
        assert_eq!(out[i], b.to_ascii_uppercase());
    }
}

#[test]
fn reverse_turns_the_bytes_around() {
    let resp = handle_reverse(post("/echo/reverse", vec![b"hello".to_vec()]));
    assert_eq!(resp.status, 200);
    assert_eq!(resp.body.chunks, vec![b"olleh".to_vec()]);
}

#[test]
fn reverse_joins_the_chunks_first() {
    let resp = handle_reverse(post("/echo/reverse", vec![b"ab".to_vec(), b"cd".to_vec(), b"e".to_vec()]));
    assert_eq!(resp.status, 200);
    assert_eq!(resp.body.chunks, vec![b"edcba".to_vec()]);
}

#[test]
fn reverse_of_an_empty_body_is_empty() {
    let resp = handle_reverse(post("/echo/reverse", Vec::new()));
    assert_eq!(resp.status, 200);
    assert!(resp.body.chunks.is_empty());
    let resp = handle_reverse(post("/echo/reverse", vec![Vec::new(), Vec::new()]));
    assert!(resp.body.chunks.is_empty());
}

#[test]
fn reverse_twice_gives_back_the_body() {
    let body: Vec<u8> = vec![0, 1, 2, 250, 251, 97, 98, 99];
    let once = handle_reverse(post("/echo/reverse", vec![body[..3].to_vec(), body[3..].to_vec()]));
    let twice = handle_reverse(post("/echo/reverse", once.body.chunks));
    assert_eq!(twice.body.bytes(), body);
}

#[test]
fn reverse_is_bytewise_and_breaks_multibyte_text() {
    // "é" (0xC3 0xA9) comes back as 0xA9 0xC3, which is not UTF-8.
    let resp = handle_reverse(post("/echo/reverse", vec!["é".as_bytes().to_vec()]));
    assert_eq!(resp.body.bytes(), vec![0xA9, 0xC3]);
    assert!(String::from_utf8(resp.body.bytes()).is_err());
}

#[test]
fn json_round_trips_a_greeting() {
    let resp = handle_json(post("/echo/json", vec![b"{\"name\":\"Ada\",\"greeting\":\"hello\"}".to_vec()]));
    assert_eq!(resp.status, 200);
    assert_eq!(text_of(&resp), "{\n  \"name\": \"Ada\",\n  \"greeting\": \"hello\"\n}");
}

#[test]
fn json_output_parses_back_to_the_same_fields() {
    let resp = handle_json(post("/echo/json", vec![b"{\"name\":\"Ada\",\"greeting\":\"hello\"}".to_vec()]));
    let value: serde_json::Value = serde_json::from_slice(&resp.body.bytes()).unwrap();
    let object = value.as_object().unwrap();
    assert_eq!(object.len(), 2);
    assert_eq!(object.get("name").and_then(|v| v.as_str()), Some("Ada"));
    assert_eq!(object.get("greeting").and_then(|v| v.as_str()), Some("hello"));
}

#[test]
fn json_normalises_the_text() {
    let body = b" { \"greeting\" : \"hi\\u0021\" ,\n \"extra\": [1, 2, {\"a\": null}], \"name\" : \"A \\\"B\\\"\" } ";
    let resp = handle_json(post("/echo/json", vec![body.to_vec()]));
    assert_eq!(resp.status, 200);
    assert_eq!(text_of(&resp), "{\n  \"name\": \"A \\\"B\\\"\",\n  \"greeting\": \"hi!\"\n}");
}

#[test]
fn json_reads_a_body_that_came_in_pieces() {
    let resp = handle_json(post(
        "/echo/json",
        vec![b"{\"name\":\"A".to_vec(), b"da\",\"greet".to_vec(), b"ing\":\"hello\"}".to_vec()],
    ));
    assert_eq!(resp.status, 200);
    assert_eq!(text_of(&resp), "{\n  \"name\": \"Ada\",\n  \"greeting\": \"hello\"\n}");
}

#[test]
fn json_missing_greeting_is_400() {
    let resp = handle_json(post("/echo/json", vec![b"{\"name\":\"Ada\"}".to_vec()]));
    assert_eq!(resp.status, 400);
    assert_eq!(text_of(&resp), "JSON parsing error: missing field `greeting`!");
}

#[test]
fn json_missing_name_is_400() {
    let resp = handle_json(post("/echo/json", vec![b"{\"greeting\":\"hello\"}".to_vec()]));
    assert_eq!(resp.status, 400);
    assert_eq!(text_of(&resp), "JSON parsing error: missing field `name`!");
}

#[test]
fn json_mistyped_field_is_400() {
    let resp = handle_json(post("/echo/json", vec![b"{\"name\":\"Ada\",\"greeting\":5}".to_vec()]));
    assert_eq!(resp.status, 400);
    assert_eq!(
        text_of(&resp),
        "JSON parsing error: invalid type for field `greeting`, expected a string!"
    );
    let resp = handle_json(post("/echo/json", vec![b"{\"name\":null,\"greeting\":\"x\"}".to_vec()]));
    assert_eq!(resp.status, 400);
    assert_eq!(text_of(&resp), "JSON parsing error: invalid type for field `name`, expected a string!");
}

#[test]
fn json_that_is_no_object_is_400() {
    for body in [&b"[\"Ada\",\"hello\"]"[..], &b"\"Ada\""[..], &b"17"[..], &b"null"[..]] {
        let resp = handle_json(post("/echo/json", vec![body.to_vec()]));
        assert_eq!(resp.status, 400);
        assert_eq!(text_of(&resp), "JSON parsing error: invalid type, expected an object!");
    }
}

#[test]
fn json_bad_syntax_is_400() {
    let resp = handle_json(post("/echo/json", vec![b"not json".to_vec()]));
    assert_eq!(resp.status, 400);
    let text = text_of(&resp);
    assert!(text.starts_with("JSON parsing error: "));
    assert!(text.ends_with("!"));
    assert_eq!(text, "JSON parsing error: expected ident at line 1 column 2!");
}

#[test]
fn json_empty_body_is_400() {
    let resp = handle_json(post("/echo/json", Vec::new()));
    assert_eq!(resp.status, 400);
    assert_eq!(text_of(&resp), "JSON parsing error: EOF while parsing a value at line 1 column 0!");
}

#[test]
fn json_trailing_text_is_400() {
    let resp = handle_json(post(
        "/echo/json",
        vec![b"{\"name\":\"Ada\",\"greeting\":\"hello\"} x".to_vec()],
    ));
    assert_eq!(resp.status, 400);
    assert!(text_of(&resp).starts_with("JSON parsing error: trailing characters"));
}

#[test]
fn handlers_give_the_same_answer_twice() {
    let body = vec![b"{\"name\":\"Ada\",\"greeting\":\"hello\"}".to_vec()];
    assert_eq!(handle_json(post("/echo/json", body.clone())), handle_json(post("/echo/json", body.clone())));
    assert_eq!(handle_reverse(post("/x", body.clone())), handle_reverse(post("/x", body.clone())));
    assert_eq!(handle_uppercase(post("/x", body.clone())), handle_uppercase(post("/x", body.clone())));
    assert_eq!(handle_echo(post("/x", body.clone())), handle_echo(post("/x", body)));
    assert_eq!(handle_root(), handle_root());
    assert_eq!(handle_not_found(), handle_not_found());
}
