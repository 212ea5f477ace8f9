use object_storage::config::{Config, Oss};
use object_storage::context::{i32_decimal, ApiError, ApiResponse, Context};
use object_storage::sdk::{DeleteApi, DeleteReq, GetReq, DELETE_API, UPLOAD_API};
use object_storage::server::adjust_error_code;
use object_storage::storage::{
    delete_result, plan_get_response, plan_put, put_result, DeleteOutcome, GetOutcome, GetPlan,
    ObjectMeta, UploadError, BAD_REQUEST_TEXT, FETCH_FAILED_TEXT, NOT_FOUND_TEXT,
};

fn config() -> Config {
    Config {
        oss: Oss {
            access_key: "ak".to_string(),
            secret_key: "sk".to_string(),
            endpoint: "e".to_string(),
            region: "r".to_string(),
            bucket: "b".to_string(),
        },
    }
}

#[test]
fn decimal_text_of_integers() {
    assert_eq!(i32_decimal(0), b"0".to_vec());
    assert_eq!(i32_decimal(-14), b"-14".to_vec());
    assert_eq!(i32_decimal(1234567), b"1234567".to_vec());
    assert_eq!(i32_decimal(i32::MIN), i32::MIN.to_string().into_bytes());
    assert_eq!(i32_decimal(i32::MAX), i32::MAX.to_string().into_bytes());
}

#[test]
fn adjust_keeps_codes() {
    assert_eq!(adjust_error_code(-2), -2);
    assert_eq!(adjust_error_code(0), 0);
}

#[test]
fn success_and_failure_answers() {
    let ctx = Context::try_init_from_config(config(), adjust_error_code);
    let ok: ApiResponse<u8> = ctx.result_to_json_resp(Ok(5u8));
    assert_eq!(ok.code, 0);
    assert_eq!(ok.data, Some(5));
    assert_eq!(ok.message, "success");
    let err: ApiResponse<u8> = ctx.result_to_json_resp(Err(ApiError { code: -2, message: "x".to_string() }));
    assert_eq!(err.code, -2);
    assert_eq!(err.data, None);
    assert_eq!(err.message, "x");
    let zero: ApiResponse<u8> = ctx.result_to_json_resp(Err(ApiError { code: 0, message: "z".to_string() }));
    assert_eq!(zero.code, -1);
}

#[test]
fn code_mapping_applies_to_answers() {
    let ctx = Context::try_init_from_config(config(), |c: i32| c * 10);
    let err: ApiResponse<()> = ctx.result_to_json_resp(Err(ApiError { code: -2, message: "x".to_string() }));
    assert_eq!(err.code, -20);
    let body = ctx.err_to_resp(ApiError { code: -3, message: "m".to_string() });
    assert_eq!(String::from_utf8(body).unwrap(), "{\"code\":-30,\"message\":\"m\"}");
}

#[test]
fn error_answer_written_by_hand() {
    let ctx = Context::try_init_from_config(config(), adjust_error_code);
    let body = ctx.err_to_resp(ApiError { code: -10, message: "序列化数据失败,x".to_string() });
    assert_eq!(String::from_utf8(body).unwrap(), "{\"code\":-10,\"message\":\"序列化数据失败,x\"}");
    let cause = serde_json::from_str::<u8>("x").unwrap_err();
    let expected = format!("{{\"code\":-10,\"message\":\"序列化数据失败,{}\"}}", cause);
    let body = ctx.serialize_failure_resp(cause);
    assert_eq!(String::from_utf8(body).unwrap(), expected);
    assert_eq!(ctx.get_bucket(), "b");
}

#[test]
fn upload_answer_data() {
    let ok = put_result::<UploadError>(Ok("k".to_string())).unwrap();
    assert_eq!(ok.key, "k");
    let err = put_result(Err(UploadError::HashMismatch)).unwrap_err();
    assert_eq!(err.code, -2);
    assert_eq!(err.message, "请求格式不正确");
}

#[test]
fn delete_answer_data() {
    assert!(delete_result(DeleteOutcome::Deleted).is_ok());
    let e = delete_result(DeleteOutcome::StoreFailed).unwrap_err();
    assert_eq!((e.code, e.message.as_str()), (-2, "删除文件失败"));
    let e = delete_result(DeleteOutcome::InvalidBody).unwrap_err();
    assert_eq!((e.code, e.message.as_str()), (-14, "参数格式不正确"));
}

fn meta() -> ObjectMeta {
    ObjectMeta {
        content_type: Some("image/png".to_string()),
        content_length: Some(12),
        last_modified: Some((1_445_412_480, 250_000_000)),
        e_tag: Some("\"abc\"".to_string()),
    }
}

#[test]
fn fetch_answer_with_headers() {
    match plan_get_response(GetOutcome::Found(meta())) {
        GetPlan::Object { content_type, content_length, last_modified, e_tag } => {
            assert_eq!(content_type.as_deref(), Some("image/png"));
            assert_eq!(content_length, Some(12));
            assert_eq!(last_modified.as_deref(), Some("Wed, 21 Oct 2015 07:28:00 GMT"));
            assert_eq!(e_tag.as_deref(), Some("\"abc\""));
        }
        other => panic!("unexpected {:?}", other),
    }
}

#[test]
fn http_date_range_ends() {
    for (secs, text) in [
        (253_402_300_799i64, "Fri, 31 Dec 9999 23:59:59 GMT"),
        (-62_135_596_800, "Mon, 01 Jan 0001 00:00:00 GMT"),
        (0, "Thu, 01 Jan 1970 00:00:00 GMT"),
    ] {
        let mut m = meta();
        m.last_modified = Some((secs, 999_999_999));
        match plan_get_response(GetOutcome::Found(m)) {
            GetPlan::Object { last_modified, .. } => assert_eq!(last_modified.as_deref(), Some(text)),
            other => panic!("unexpected {:?}", other),
        }
    }
}

#[test]
fn fetch_answer_drops_negative_length() {
    let mut m = meta();
    m.content_length = Some(-1);
    match plan_get_response(GetOutcome::Found(m)) {
        GetPlan::Object { content_length, .. } => assert_eq!(content_length, None),
        other => panic!("unexpected {:?}", other),
    }
}

#[test]
fn fetch_answer_fails_on_bad_header_values() {
    let mut m = meta();
    m.content_type = Some("a\nb".to_string());
    assert!(matches!(plan_get_response(GetOutcome::Found(m)), GetPlan::Failed));
    let mut m = meta();
    m.last_modified = Some((253_402_300_800, 0));
    assert!(matches!(plan_get_response(GetOutcome::Found(m)), GetPlan::Failed));
    let mut m = meta();
    m.last_modified = Some((-62_135_596_801, 0));
    assert!(matches!(plan_get_response(GetOutcome::Found(m)), GetPlan::Failed));
    let mut m = meta();
    m.last_modified = Some((0, 1_000_000_000));
    assert!(matches!(plan_get_response(GetOutcome::Found(m)), GetPlan::Failed));
    let mut m = meta();
    m.e_tag = Some("\u{7f}".to_string());
    assert!(matches!(plan_get_response(GetOutcome::Found(m)), GetPlan::Failed));
    assert!(matches!(plan_get_response(GetOutcome::NoSuchKey), GetPlan::NotFound));
    assert!(matches!(plan_get_response(GetOutcome::Failed), GetPlan::Failed));
    assert_eq!(NOT_FOUND_TEXT, "file not found!");
    assert_eq!(FETCH_FAILED_TEXT, "Fetch file failed!");
    assert_eq!(BAD_REQUEST_TEXT, "BAD REQUEST");
}

#[test]
fn upload_headers() {
    let ct = b"multipart/form-data; boundary=XyZ";
    let (b, h) = plan_put(Some(ct), Some(b"hash")).unwrap();
    assert_eq!(b, "XyZ");
    assert_eq!(h, "hash");
    assert!(plan_put(Some(b"text/plain"), Some(b"hash")).is_none());
    assert!(plan_put(Some(ct), None).is_none());
    assert!(plan_put(None, Some(b"hash")).is_none());
}

#[test]
fn sdk_types() {
    assert_eq!(DeleteApi::namespace(), "/api/oss/delete");
    assert_eq!(DELETE_API, "/api/oss/delete");
    assert_eq!(UPLOAD_API, "/api/oss/upload");
    let g = GetReq { key: "k".to_string() };
    let d = DeleteReq { key: "k".to_string() };
    assert_eq!(g.key, d.key);
}
