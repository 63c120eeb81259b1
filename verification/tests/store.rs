use grid_node::routes::routes;
use grid_node::routes::Route;
use grid_node::store::add_transaction;
use grid_node::store::bytes_to_json;
use grid_node::store::frame_compact;
use grid_node::store::frame_pretty;
use grid_node::store::generate_key;
use grid_node::store::get_reply;
use grid_node::store::get_transaction;
use grid_node::store::handle_get_transaction;
use grid_node::store::handle_post_transaction;
use grid_node::store::handle_unreadable_body;
use grid_node::store::handle_unserved;
use grid_node::store::Held;
use grid_node::store::new_entry;
use grid_node::store::record_bytes;
use grid_node::store::RepositoryError;
use grid_node::store::Transaction;
use grid_node::store::KEY_MAX;
use grid_node::store::KEY_MIN;

fn as_json_object(data: &str) -> serde_json::Value {
    let mut fields = serde_json::Map::new();
    fields.insert("data".to_string(), serde_json::Value::String(data.to_string()));
    serde_json::Value::Object(fields)
}

#[test]
fn routes_test_get_transaction() {
    let request = routes(&b"GET".to_vec(), &b"/transaction/get/123".to_vec());
    assert_eq!(request, Route::GetTransaction { key: 123 });
}

#[test]
fn repository_passes_a_write_on() {
    assert_eq!(add_transaction(true), Ok(()));
}

#[test]
fn repository_hands_out_what_the_database_held() {
    let value_vec = b"three-six-nine".to_vec();
    assert_eq!(get_transaction(Some(value_vec.clone())), Ok(value_vec));
    assert_eq!(get_transaction(Some(Vec::new())), Ok(Vec::new()));
}

#[test]
fn repository_reports_a_refused_write() {
    assert_eq!(add_transaction(false), Err(RepositoryError::WriteFailed));
    assert_eq!(RepositoryError::WriteFailed.message(), "Repository: Failed to add to db.");
}

#[test]
fn repository_reports_a_missing_key() {
    assert_eq!(get_transaction(None), Err(RepositoryError::KeyNotFound));
    assert_eq!(RepositoryError::KeyNotFound.message(), "Repository: Key not found.");
}

#[test]
fn keys_lie_between_one_and_a_hundred_million() {
    assert_eq!(KEY_MIN, 1);
    assert_eq!(KEY_MAX, 100000000);
    let mut distinct = std::collections::BTreeSet::new();
    for _ in 0..200 {
        let key = generate_key();
        assert!(1 <= key && key <= 100000000);
        distinct.insert(key);
    }
    assert!(distinct.len() > 1);
}

#[test]
fn record_is_stored_as_compact_json() {
    let record = Transaction::new("x".to_string());
    assert_eq!(record.data(), "x");
    let bytes = record_bytes(&record).unwrap();
    assert_eq!(bytes, b"{\"data\":\"x\"}".to_vec());
    assert_eq!(bytes, serde_json::to_vec(&as_json_object("x")).unwrap());
}

#[test]
fn record_text_is_escaped_as_json() {
    let text = "say \"hi\"\n\tback\\slash \u{1}";
    let record = Transaction::new(text.to_string());
    let bytes = record_bytes(&record).unwrap();
    assert_ne!(bytes, format!("{{\"data\":{}}}", text).into_bytes());
    assert_eq!(bytes, serde_json::to_vec(&as_json_object(text)).unwrap());
    let parsed: serde_json::Value = serde_json::from_slice(&bytes).unwrap();
    assert_eq!(parsed.get("data").and_then(|v| v.as_str()), Some(text));
}

#[test]
fn record_is_shown_as_pretty_json() {
    let record = Transaction::new("x".to_string());
    let body = bytes_to_json(&record).unwrap();
    assert_eq!(body, b"{\n  \"data\": \"x\"\n}".to_vec());
    assert_eq!(body, serde_json::to_vec_pretty(&as_json_object("x")).unwrap());
    let text = "caf\u{e9} \"quoted\"";
    let body = bytes_to_json(&Transaction::new(text.to_string())).unwrap();
    assert_eq!(body, serde_json::to_vec_pretty(&as_json_object(text)).unwrap());
}

#[test]
fn every_text_has_its_record() {
    for text in ["", "x", "a\u{0}b", "\u{7f}", "tab\there", "\u{10ffff}", "{\"data\":1}"] {
        let record = Transaction::new(text.to_string());
        let stored = record_bytes(&record).unwrap();
        let shown = bytes_to_json(&record).unwrap();
        let (_, entry) = new_entry(&record).unwrap();
        assert_eq!(stored, serde_json::to_vec(&as_json_object(text)).unwrap());
        assert_eq!(shown, serde_json::to_vec_pretty(&as_json_object(text)).unwrap());
        assert_eq!(entry, stored);
    }
}

#[test]
fn frames_stand_around_the_literal() {
    assert_eq!(frame_compact(&b"\"a\"".to_vec()), b"{\"data\":\"a\"}".to_vec());
    assert_eq!(frame_pretty(&b"\"a\"".to_vec()), b"{\n  \"data\": \"a\"\n}".to_vec());
    assert_eq!(frame_compact(&Vec::new()), b"{\"data\":}".to_vec());
}

#[test]
fn new_entry_has_a_key_and_the_stored_bytes() {
    let record = Transaction::new("x".to_string());
    let (key, bytes) = new_entry(&record).unwrap();
    assert!(1 <= key && key <= 100000000);
    assert_eq!(bytes, b"{\"data\":\"x\"}".to_vec());
}

fn decode(bytes: &[u8]) -> Held {
    let parsed: Result<serde_json::Value, serde_json::Error> = serde_json::from_slice(bytes);
    match parsed.ok().and_then(|v| v.get("data").and_then(|d| d.as_str()).map(str::to_string)) {
        Some(data) => Held::Record(Transaction::new(data)),
        None => Held::Unreadable,
    }
}

fn read(database: &std::collections::BTreeMap<i32, Vec<u8>>, key: i32) -> Held {
    match get_transaction(database.get(&key).cloned()) {
        Ok(bytes) => decode(&bytes),
        Err(_) => Held::Nothing,
    }
}

#[test]
fn store_round_trip() {
    let posted = Transaction::new("x".to_string());
    let (key, bytes) = new_entry(&posted).unwrap();
    let mut database = std::collections::BTreeMap::new();
    database.insert(key, bytes);
    assert_eq!(database.get(&key), Some(&b"{\"data\":\"x\"}".to_vec()));
    let reply = handle_post_transaction(key, add_transaction(true));
    assert_eq!(reply.status, 200);
    assert_eq!(reply.body, key.to_string().into_bytes());

    let mut path = b"/transaction/get/".to_vec();
    path.extend_from_slice(&reply.body);
    let asked = match routes(&b"GET".to_vec(), &path) {
        Route::GetTransaction { key } => key,
        other => panic!("unexpected route {:?}", other),
    };
    assert_eq!(asked, key);
    let reply = handle_get_transaction(read(&database, asked));
    assert_eq!(reply.status, 200);
    let shown: serde_json::Value = serde_json::from_slice(&reply.body).unwrap();
    assert_eq!(shown, as_json_object("x"));
}

#[test]
fn write_reply_carries_the_key() {
    assert_eq!(handle_post_transaction(1, Ok(())).body, b"1".to_vec());
    assert_eq!(handle_post_transaction(100000000, Ok(())).body, b"100000000".to_vec());
    assert_eq!(handle_post_transaction(0, Ok(())).body, b"0".to_vec());
    assert_eq!(handle_post_transaction(-15, Ok(())).body, b"-15".to_vec());
    assert_eq!(handle_post_transaction(i32::MIN, Ok(())).body, b"-2147483648".to_vec());
    assert_eq!(handle_post_transaction(i32::MAX, Ok(())).body, b"2147483647".to_vec());
    assert_ne!(handle_post_transaction(7, Ok(())).body, handle_post_transaction(8, Ok(())).body);
    for key in [i32::MIN, -1, 0, 1, 369, i32::MAX] {
        let mut path = b"/transaction/get/".to_vec();
        path.extend_from_slice(&handle_post_transaction(key, Ok(())).body);
        assert_eq!(routes(&b"GET".to_vec(), &path), Route::GetTransaction { key });
    }
}

#[test]
fn store_miss_is_not_found() {
    let database: std::collections::BTreeMap<i32, Vec<u8>> = std::collections::BTreeMap::new();
    let asked = match routes(&b"GET".to_vec(), &b"/transaction/get/999999999".to_vec()) {
        Route::GetTransaction { key } => key,
        other => panic!("unexpected route {:?}", other),
    };
    assert_eq!(asked, 999999999);
    assert_eq!(get_transaction(database.get(&asked).cloned()), Err(RepositoryError::KeyNotFound));
    let reply = handle_get_transaction(read(&database, asked));
    assert_eq!(reply.status, 404);
    assert!(reply.body.is_empty());
    let reply = get_reply(Err(RepositoryError::KeyNotFound));
    assert_eq!(reply.status, 404);
}

#[test]
fn stored_bytes_that_are_no_record_are_an_error() {
    let mut database = std::collections::BTreeMap::new();
    database.insert(369, b"three-six-nine".to_vec());
    database.insert(370, b"{\"other\":1}".to_vec());
    for key in [369, 370] {
        let reply = handle_get_transaction(read(&database, key));
        assert_eq!(reply.status, 500);
        assert!(reply.body.is_empty());
    }
    let reply = handle_get_transaction(Held::Unreadable);
    assert_eq!(reply.status, 500);
}

#[test]
fn unreadable_body_is_a_bad_request() {
    let reply = handle_unreadable_body();
    assert_eq!(reply.status, 400);
    assert!(reply.body.is_empty());
}

#[test]
fn unserved_requests_have_their_statuses() {
    let missing = handle_unserved(Route::NotFound).unwrap();
    assert_eq!(missing.status, 404);
    assert!(missing.body.is_empty());
    let refused = handle_unserved(Route::MethodNotAllowed).unwrap();
    assert_eq!(refused.status, 405);
    assert!(refused.body.is_empty());
    assert!(handle_unserved(Route::PostTransaction).is_none());
    assert!(handle_unserved(Route::GetTransaction { key: 1 }).is_none());
    let asked = routes(&b"GET".to_vec(), &b"/transaction/post".to_vec());
    assert_eq!(handle_unserved(asked).unwrap().status, 405);
    let asked = routes(&b"GET".to_vec(), &b"/nowhere".to_vec());
    assert_eq!(handle_unserved(asked).unwrap().status, 404);
}

#[test]
fn refused_write_is_no_content() {
    let reply = handle_post_transaction(5, add_transaction(false));
    assert_eq!(reply.status, 204);
    assert!(reply.body.is_empty());
}

#[test]
fn banner_names_host_and_port() {
    assert_eq!(
        grid_node::store::server_banner(
            grid_node::store::SERVER_HOST,
            grid_node::store::SERVER_PORT
        ),
        b"ZERO Node Live :: http://192.168.1.203:3690".to_vec()
    );
    assert_eq!(
        grid_node::store::server_banner(0x7f000001, 80),
        b"ZERO Node Live :: http://127.0.0.1:80".to_vec()
    );
}

#[test]
fn found_record_is_sent_as_it_is() {
    let reply = get_reply(Ok(b"body".to_vec()));
    assert_eq!(reply.status, 200);
    assert_eq!(reply.body, b"body".to_vec());
}

#[test]
fn routes_read_signed_keys() {
    let get = b"GET".to_vec();
    assert_eq!(routes(&get, &b"/transaction/get/0".to_vec()), Route::GetTransaction { key: 0 });
    assert_eq!(routes(&get, &b"/transaction/get/+7".to_vec()), Route::GetTransaction { key: 7 });
    assert_eq!(routes(&get, &b"/transaction/get/-7".to_vec()), Route::GetTransaction { key: -7 });
    assert_eq!(routes(&get, &b"/transaction/get/007".to_vec()), Route::GetTransaction { key: 7 });
    assert_eq!(
        routes(&get, &b"/transaction/get/2147483647".to_vec()),
        Route::GetTransaction { key: 2147483647 }
    );
    assert_eq!(
        routes(&get, &b"/transaction/get/-2147483648".to_vec()),
        Route::GetTransaction { key: -2147483648 }
    );
}

#[test]
fn routes_refuse_what_is_no_key() {
    let get = b"GET".to_vec();
    assert_eq!(routes(&get, &b"/transaction/get/2147483648".to_vec()), Route::NotFound);
    assert_eq!(routes(&get, &b"/transaction/get/-2147483649".to_vec()), Route::NotFound);
    assert_eq!(routes(&get, &b"/transaction/get/".to_vec()), Route::NotFound);
    assert_eq!(routes(&get, &b"/transaction/get/-".to_vec()), Route::NotFound);
    assert_eq!(routes(&get, &b"/transaction/get/12a".to_vec()), Route::NotFound);
    assert_eq!(routes(&get, &b"/transaction/get/12/3".to_vec()), Route::NotFound);
    assert_eq!(routes(&get, &b"/transaction/get".to_vec()), Route::NotFound);
    assert_eq!(routes(&get, &b"/other".to_vec()), Route::NotFound);
    assert_eq!(routes(&get, &Vec::new()), Route::NotFound);
    assert_eq!(routes(&b"POST".to_vec(), &b"/transaction/get/x".to_vec()), Route::NotFound);
    assert_eq!(routes(&b"POST".to_vec(), &b"/transaction".to_vec()), Route::NotFound);
}

#[test]
fn known_path_under_another_method_is_not_allowed() {
    let post_path = b"/transaction/post".to_vec();
    assert_eq!(routes(&b"GET".to_vec(), &post_path), Route::MethodNotAllowed);
    assert_eq!(routes(&b"PUT".to_vec(), &post_path), Route::MethodNotAllowed);
    assert_eq!(routes(&b"post".to_vec(), &post_path), Route::MethodNotAllowed);
    assert_eq!(routes(&Vec::new(), &post_path), Route::MethodNotAllowed);
    let get_path = b"/transaction/get/1".to_vec();
    assert_eq!(routes(&b"POST".to_vec(), &get_path), Route::MethodNotAllowed);
    assert_eq!(routes(&b"DELETE".to_vec(), &get_path), Route::MethodNotAllowed);
}

#[test]
fn routes_know_the_post_path() {
    assert_eq!(routes(&b"POST".to_vec(), &b"/transaction/post".to_vec()), Route::PostTransaction);
    assert_eq!(routes(&b"POST".to_vec(), &b"/transaction/post/".to_vec()), Route::NotFound);
    assert_eq!(routes(&b"POST".to_vec(), &b"/transaction/pos".to_vec()), Route::NotFound);
}
