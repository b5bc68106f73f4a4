use zipcode_lookup::decode::{decode_address, DecodeError};
use zipcode_lookup::model::{Address, Detail};
use zipcode_lookup::text::{request_url, trim_zip_code, zip_url, ZIP_URL};

fn detail_json(zipcode: &str, fill: &str) -> String {
    format!(
        "{{\"zipcode\":\"{zipcode}\",\"prefcode\":\"{fill}\",\"address1\":\"{fill}\",\"address2\":\"{fill}\",\"address3\":\"{fill}\",\"kana1\":\"{fill}\",\"kana2\":\"{fill}\",\"kana3\":\"{fill}\"}}"
    )
}

fn detail(zipcode: &str, fill: &str) -> Detail {
    Detail {
        zipcode: zipcode.to_string(),
        prefcode: fill.to_string(),
        address1: fill.to_string(),
        address2: fill.to_string(),
        address3: fill.to_string(),
        kana1: fill.to_string(),
        kana2: fill.to_string(),
        kana3: fill.to_string(),
    }
}

#[test]
fn test_zip_url() {
    let url = "http://127.0.0.1:1234";
    let body = format!(
        "{{\"status\":200,\"message\":null,\"results\":[{}]}}",
        detail_json("a", "a")
    );
    let request = zip_url(&format!("{url}/"), "1310031");
    assert_eq!(request, format!("{url}/?zipcode=1310031"));
    let r = decode_address(body.as_bytes()).unwrap();
    assert_eq!(r.status, 200);
}

#[test]
fn url_is_base_query_and_token() {
    assert_eq!(
        zip_url(ZIP_URL, "1310031"),
        "https://zipcloud.ibsnet.co.jp/api/search?zipcode=1310031"
    );
    assert_eq!(zip_url("http://x", "abc-12"), "http://x?zipcode=abc-12");
    assert_eq!(zip_url("http://x", ""), "http://x?zipcode=");
}

#[test]
fn token_is_not_escaped() {
    assert_eq!(zip_url("http://x", "a&b=c"), "http://x?zipcode=a&b=c");
}

#[test]
fn trailing_newline_is_trimmed() {
    assert_eq!(trim_zip_code("1310031\n"), "1310031");
    assert_eq!(
        request_url(ZIP_URL, "1310031\n"),
        "https://zipcloud.ibsnet.co.jp/api/search?zipcode=1310031"
    );
}

#[test]
fn white_space_trimmed_at_both_ends_only() {
    assert_eq!(trim_zip_code(" \t131 0031\r\n"), "131 0031");
    assert_eq!(trim_zip_code("\u{3000}1310031\u{a0}"), "1310031");
    assert_eq!(trim_zip_code("   \n"), "");
    assert_eq!(trim_zip_code(""), "");
    assert_eq!(trim_zip_code("東京"), "東京");
}

#[test]
fn one_detail_is_decoded() {
    let body = format!(
        "{{\"status\":200,\"message\":null,\"results\":[{}]}}",
        detail_json("1310031", "x")
    );
    let a = decode_address(body.as_bytes()).unwrap();
    assert_eq!(
        a,
        Address { status: 200, message: None, results: vec![detail("1310031", "x")] }
    );
}

#[test]
fn scenario_tokyo_reply() {
    let body = "{\"status\":200,\"message\":null,\"results\":[{\"zipcode\":\"1310031\",\"prefcode\":\"13\",\"address1\":\"東京都\",\"address2\":\"墨田区\",\"address3\":\"墨田\",\"kana1\":\"ﾄｳｷｮｳﾄ\",\"kana2\":\"ｽﾐﾀﾞｸ\",\"kana3\":\"ｽﾐﾀﾞ\"}]}";
    let a = decode_address(body.as_bytes()).unwrap();
    assert_eq!(a.status, 200);
    assert_eq!(a.results.len(), 1);
    assert_eq!(a.results[0].zipcode, "1310031");
    assert_eq!(a.results[0].prefcode, "13");
    assert_eq!(a.results[0].address1, "東京都");
    assert_eq!(a.results[0].kana3, "ｽﾐﾀﾞ");
}

#[test]
fn empty_results_are_decoded() {
    let a = decode_address(b"{\"status\":200,\"message\":null,\"results\":[]}").unwrap();
    assert_eq!(a, Address { status: 200, message: None, results: vec![] });
}

#[test]
fn results_keep_their_order() {
    let body = format!(
        "{{\"status\":0,\"results\":[{},{}]}}",
        detail_json("1", "p"),
        detail_json("2", "q")
    );
    let a = decode_address(body.as_bytes()).unwrap();
    assert_eq!(a.message, None);
    assert_eq!(a.results, vec![detail("1", "p"), detail("2", "q")]);
}

#[test]
fn message_is_read() {
    let body = "{\"status\":400,\"message\":\"bad zip\",\"results\":[]}";
    let a = decode_address(body.as_bytes()).unwrap();
    assert_eq!(a.status, 400);
    assert_eq!(a.message, Some("bad zip".to_string()));
    assert!(a.results.is_empty());
}

#[test]
fn extra_reply_member_is_refused() {
    let body = "{\"status\":200,\"message\":null,\"results\":[],\"extra\":1}";
    assert_eq!(decode_address(body.as_bytes()), Err(DecodeError::Schema));
}

#[test]
fn extra_detail_member_is_refused() {
    let body = format!(
        "{{\"status\":200,\"results\":[{}]}}",
        detail_json("1", "p").replace("}", ",\"town\":\"x\"}")
    );
    assert_eq!(decode_address(body.as_bytes()), Err(DecodeError::Schema));
}

#[test]
fn deep_nesting_is_not_json() {
    let body = format!("{}{}", "[".repeat(200), "]".repeat(200));
    assert_eq!(decode_address(body.as_bytes()), Err(DecodeError::NotJson));
}

#[test]
fn white_space_set_is_unicode() {
    assert_eq!(trim_zip_code("\u{85}\u{2028}a\u{200a}\u{205f}"), "a");
    assert_eq!(trim_zip_code("\u{200b}a"), "\u{200b}a");
}

#[test]
fn negative_status_is_kept() {
    let a = decode_address(b"{\"status\":-2147483648,\"results\":[]}").unwrap();
    assert_eq!(a.status, i32::MIN);
}

#[test]
fn non_json_body_is_refused() {
    assert_eq!(decode_address(b"<html>oops</html>"), Err(DecodeError::NotJson));
    assert_eq!(decode_address(b""), Err(DecodeError::NotJson));
}

#[test]
fn missing_zipcode_is_refused() {
    let body = "{\"status\":200,\"message\":null,\"results\":[{\"prefcode\":\"13\",\"address1\":\"a\",\"address2\":\"a\",\"address3\":\"a\",\"kana1\":\"a\",\"kana2\":\"a\",\"kana3\":\"a\"}]}";
    assert_eq!(decode_address(body.as_bytes()), Err(DecodeError::Schema));
}

#[test]
fn wrongly_typed_members_are_refused() {
    assert_eq!(
        decode_address(b"{\"status\":\"200\",\"results\":[]}"),
        Err(DecodeError::Schema)
    );
    assert_eq!(
        decode_address(b"{\"status\":200.5,\"results\":[]}"),
        Err(DecodeError::Schema)
    );
    assert_eq!(
        decode_address(b"{\"status\":2147483648,\"results\":[]}"),
        Err(DecodeError::Schema)
    );
    assert_eq!(
        decode_address(b"{\"status\":200,\"message\":5,\"results\":[]}"),
        Err(DecodeError::Schema)
    );
    assert_eq!(
        decode_address(b"{\"status\":200,\"results\":null}"),
        Err(DecodeError::Schema)
    );
    assert_eq!(decode_address(b"{\"status\":200}"), Err(DecodeError::Schema));
    assert_eq!(decode_address(b"\"text\""), Err(DecodeError::Schema));
}
