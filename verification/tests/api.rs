use giant_file_exchange::api::{
    answer_upload, answer_usage, check_receivers, normalize_usage_api_base_url, parse_spend_response, parse_upload_response,
    read_spend_response, read_upload_response, safe_server_message, upload_request,
    usage_request, ApiError, FormPart, UploadOptions, UploadProgress,
    UploadResult, EXCHANGE_TYPE_EXTERNAL_TO_INTERNAL, MESSAGE_LIMIT,
};
use giant_file_exchange::json::JsonValue;
use giant_file_exchange::logging::upload_failed;

fn options(receivers: &[&str], upload_file_name: Option<&str>) -> UploadOptions {
    UploadOptions {
        api_base_url: "https://example.com///".to_owned(),
        token: " Bearer secret-token ".to_owned(),
        receiver_users: receivers.iter().map(|name| name.to_string()).collect(),
        upload_file_name: upload_file_name.map(|name| name.to_owned()),
    }
}

#[test]
fn parses_supported_success_responses() {
    assert_eq!(
        parse_upload_response(200, true, r#"{"status":0,"data":["abc"]}"#).unwrap(),
        UploadResult {
            file_id: Some("abc".to_owned())
        }
    );
    assert_eq!(
        parse_upload_response(200, true, r#"{"status":"0","data":true}"#).unwrap(),
        UploadResult { file_id: None }
    );
}

#[test]
fn rejects_http_and_business_failures() {
    let error = parse_upload_response(401, false, r#"{"message":"not find token"}"#).unwrap_err();
    assert_eq!(error.message(), "HTTP 401: not find token");
    assert!(parse_upload_response(200, true, r#"{"status":1,"message":"failed"}"#).is_err());
    assert!(parse_upload_response(200, true, r#"{"status":0,"data":false}"#).is_err());
    assert!(parse_upload_response(200, true, "not json").is_err());
}

#[test]
fn parses_spend_response_and_normalizes_base_url() {
    let spend = parse_spend_response(
        200,
        true,
        r#"{"info":{"spend":"12.5","max_budget":20,"budget_duration":"monthly","budget_reset_at":1750000000,"last_active":"2026-07-21T10:00:00Z"}}"#,
    )
    .unwrap();
    assert_eq!(spend.spend.parse::<f64>().unwrap(), 12.5);
    assert_eq!(
        spend.max_budget.as_deref().map(|amount| amount.parse::<f64>().unwrap()),
        Some(20.0)
    );
    assert_eq!(spend.budget_duration.as_deref(), Some("monthly"));
    assert_eq!(spend.budget_reset_at.as_deref(), Some("1750000000"));
    assert_eq!(
        normalize_usage_api_base_url("https://example.com/v1/chat/completions"),
        "https://example.com"
    );
    assert_eq!(
        normalize_usage_api_base_url("https://example.com/v1/responses"),
        "https://example.com"
    );
}

#[test]
fn rejects_invalid_spend_response() {
    assert!(parse_spend_response(200, true, r#"{"info":{}}"#).is_err());
    let error = parse_spend_response(401, false, r#"{"error":{"message":"bad key"}}"#).unwrap_err();
    assert_eq!(error.message(), "HTTP 401: bad key");
}

#[test]
fn upload_responses_that_name_no_file_succeed_without_one() {
    for data in ["true", "null", "[]", "[3]"] {
        let body = format!(r#"{{"status":0,"data":{data}}}"#);
        assert_eq!(
            parse_upload_response(200, true, &body).unwrap(),
            UploadResult { file_id: None }
        );
    }
    assert_eq!(
        parse_upload_response(200, true, r#"{"status":0}"#).unwrap(),
        UploadResult { file_id: None }
    );
    assert_eq!(
        parse_upload_response(200, true, r#"{"status":0,"data":"id-7"}"#).unwrap().file_id,
        Some("id-7".to_owned())
    );
}

#[test]
fn each_upload_failure_has_its_own_words() {
    let say = |status: u16, success: bool, body: &str| {
        parse_upload_response(status, success, body).unwrap_err().message()
    };
    assert_eq!(say(200, true, "not json"), "服务器返回了无法解析的响应");
    assert_eq!(say(500, false, "{}"), "HTTP 500: 请求失败");
    assert_eq!(
        say(200, true, r#"{"status":1,"message":"failed"}"#),
        "服务端拒绝了请求：failed"
    );
    assert_eq!(say(200, true, "{}"), "服务端拒绝了请求：请求失败");
    assert_eq!(
        say(200, true, r#"{"status":0.0,"message":"x"}"#),
        "服务端拒绝了请求：x"
    );
    assert_eq!(
        say(200, true, r#"{"status":0,"data":false,"message":"a\r\nb"}"#),
        "服务端报告上传失败：a  b"
    );
    for data in ["\"\"", "7", "{}"] {
        let body = format!(r#"{{"status":"0","data":{data}}}"#);
        assert_eq!(say(200, true, &body), "服务器响应中的 data 字段无效");
    }
}

#[test]
fn a_body_without_meaning_is_unreadable() {
    assert!(matches!(
        read_upload_response(200, true, &None),
        Err(ApiError::UnreadableUpload)
    ));
    assert!(matches!(
        read_spend_response(200, true, &None),
        Err(ApiError::UnreadableUsage)
    ));
    let value = JsonValue::Object(vec![(
        "status".to_owned(),
        JsonValue::Number {
            integer: Some(0),
            text: "0".to_owned(),
        },
    )]);
    assert_eq!(
        read_upload_response(200, true, &Some(value)).unwrap(),
        UploadResult { file_id: None }
    );
}

#[test]
fn spend_amounts_are_the_numbers_of_the_report() {
    for (amount, expected) in [("3", 3.0), ("-0.25", -0.25), ("1e3", 1000.0), ("\"7.125\"", 7.125)] {
        let body = format!(r#"{{"info":{{"spend":{amount}}}}}"#);
        let info = parse_spend_response(200, true, &body).unwrap();
        assert_eq!(info.spend.parse::<f64>().unwrap(), expected);
        assert_eq!(info.max_budget, None);
    }
    assert_eq!(
        parse_spend_response(200, true, "[").unwrap_err().message(),
        "用量接口返回了无法解析的响应"
    );
    assert_eq!(
        parse_spend_response(200, true, r#"{"info":{"spend":"much"}}"#).unwrap_err().message(),
        "未获取到消费额信息，请检查用量查询地址和 API Key"
    );
}

#[test]
fn shown_messages_are_cut_to_one_short_line() {
    assert_eq!(safe_server_message("a\nb\rc"), "a b c");
    assert_eq!(safe_server_message("令牌无效"), "令牌无效");
    let long = "好".repeat(600);
    assert_eq!(safe_server_message(&long).chars().count(), MESSAGE_LIMIT);
}

#[test]
fn the_root_of_an_address_is_found_whatever_its_path() {
    for address in [
        " https://example.com ",
        "https://example.com/",
        "https://example.com/v1",
        "https://example.com/V1//",
        "https://example.com/v1/responses",
        "https://example.com//v1/responses",
        "https://example.com/v1/chat/completions/",
    ] {
        assert_eq!(normalize_usage_api_base_url(address), "https://example.com");
    }
    assert_eq!(
        normalize_usage_api_base_url("https://example.com/v1/other"),
        "https://example.com/v1/other"
    );
    assert_eq!(normalize_usage_api_base_url("中文地址址"), "中文地址址");
    assert_eq!(normalize_usage_api_base_url("http://中文/v1"), "http://中文");
}

#[test]
fn an_upload_is_addressed_to_every_receiver() {
    let request = upload_request(
        &options(&["alice", "bob"], Some("message.txt")),
        &Some("notes.txt".to_owned()),
    )
    .unwrap();
    assert_eq!(
        request.endpoint,
        "https://example.com/api/exchange/user/transfer/open/upload"
    );
    assert_eq!(request.authorization, "Bear secret-token");
    let shown: Vec<String> = request
        .parts
        .iter()
        .map(|part| match part {
            FormPart::Field { name, value } => format!("{name}={value}"),
            FormPart::File { name, file_name } => format!("{name}@{file_name}"),
        })
        .collect();
    assert_eq!(
        shown,
        [
            "receiverUser=alice".to_owned(),
            "receiverUser=bob".to_owned(),
            "file@message.txt".to_owned(),
            format!("exchangeType={EXCHANGE_TYPE_EXTERNAL_TO_INTERNAL}"),
        ]
    );
}

#[test]
fn an_upload_takes_the_name_of_its_file() {
    let name_of = |own: Option<&str>| {
        let request =
            upload_request(&options(&["alice"], None), &own.map(|name| name.to_owned())).unwrap();
        request
            .parts
            .into_iter()
            .find_map(|part| match part {
                FormPart::File { file_name, .. } => Some(file_name),
                _ => None,
            })
            .unwrap()
    };
    assert_eq!(name_of(Some("report.pdf")), "report.pdf");
    assert_eq!(name_of(None), "upload.bin");
}

#[test]
fn uploads_without_receiver_or_token_are_not_made() {
    assert_eq!(
        check_receivers(&options(&[], None)).unwrap_err().message(),
        "没有可用的接收人"
    );
    assert!(check_receivers(&options(&["alice"], None)).is_ok());
    assert!(matches!(
        upload_request(&options(&[], None), &None),
        Err(ApiError::NoReceivers)
    ));
    let mut broken = options(&["alice"], None);
    broken.token = "bad\ntoken".to_owned();
    assert_eq!(
        upload_request(&broken, &None).unwrap_err().message(),
        "个人令牌无效"
    );
}

#[test]
fn usage_is_asked_for_at_the_root() {
    let request = usage_request("http://host/v1/", "Bearer sk-1").unwrap();
    assert_eq!(request.endpoint, "http://host/key/info");
    assert_eq!(request.authorization, "Bearer sk-1");
    assert_eq!(
        usage_request("http://host", " ").unwrap_err().message(),
        "API Key 无效"
    );
}

#[test]
fn progress_stops_at_the_largest_number() {
    let mut progress = UploadProgress { sent: 0, total: 10 };
    progress.advance(4);
    progress.advance(6);
    assert_eq!((progress.sent, progress.total), (10, 10));
    progress.advance(u64::MAX);
    assert_eq!(progress.sent, u64::MAX);
}

#[test]
fn copies_of_options_are_equal() {
    let first = options(&["alice", "bob"], Some("message.txt"));
    let second = first.duplicate();
    assert_eq!(second.api_base_url, first.api_base_url);
    assert_eq!(second.token, first.token);
    assert_eq!(second.receiver_users, first.receiver_users);
    assert_eq!(second.upload_file_name, first.upload_file_name);
}

#[test]
fn answers_are_logged_without_what_they_hold() {
    let (result, note) = answer_upload(200, true, r#"{"status":0,"data":"secret-id"}"#);
    assert_eq!(result.unwrap().file_id.as_deref(), Some("secret-id"));
    assert_eq!(note.message, "上传响应：status=200; success=true");
    let (result, note) = answer_upload(403, false, r#"{"message":"secret-token"}"#);
    assert!(result.is_err());
    assert_eq!(note.message, "上传响应：status=403; success=false");
    let (result, note) = answer_usage(200, true, r#"{"spend":3}"#);
    assert_eq!(result.unwrap().spend, "3");
    assert_eq!(note.message, "用量查询响应：status=200; success=true");
}

#[test]
fn refused_uploads_are_logged_without_the_token() {
    let own_name = Some("a.txt".to_owned());
    for token in ["", "  ", "secret\r\ntoken", "Bear other\nsecret"] {
        let mut refused = options(&["alice"], None);
        refused.token = token.to_owned();
        let error = upload_request(&refused, &own_name).unwrap_err();
        assert_eq!(
            upload_failed("a.txt", &error.message()).message,
            "上传失败：file=a.txt; error=个人令牌无效"
        );
        refused.receiver_users.clear();
        let error = upload_request(&refused, &own_name).unwrap_err();
        assert_eq!(
            upload_failed("a.txt", &error.message()).message,
            "上传失败：file=a.txt; error=没有可用的接收人"
        );
    }
    for key in ["", "secret\nkey"] {
        assert_eq!(
            usage_request("https://host", key).unwrap_err().message(),
            "API Key 无效"
        );
    }
}
