//! The handler's shared state and the framing of its JSON answers.

use crate::config::Config;
use vstd::prelude::*;
use vstd::utf8::encode_utf8;

verus! {

/// An error of the API as its answer carries it: a code and a message.
#[derive(Debug)]
pub struct ApiError {
    pub code: i32,
    pub message: String,
}

/// The body of an API answer: a code (0 on success), the data of a
/// success, and a message. The caller sends it as JSON.
#[derive(Debug)]
pub struct ApiResponse<T> {
    pub code: i32,
    pub data: Option<T>,
    pub message: String,
}

/// The message of a successful answer.
pub open spec fn success_message() -> Seq<char> {
    "success"@
}

impl<T> ApiResponse<T> {
    /// A successful answer: code 0, message "success".
    pub fn success(data: Option<T>) -> (r: ApiResponse<T>)
        ensures
            r.code == 0,
            r.data == data,
            r.message@ == success_message(),
    {
        ApiResponse { code: 0, data, message: "success".to_owned() }
    }

    /// A failed answer. A code of 0 would read as success, so it becomes -1.
    pub fn failure(code: i32, message: String, data: Option<T>) -> (r: ApiResponse<T>)
        ensures
            r.code == (if code == 0 { -1i32 } else { code }),
            r.data == data,
            r.message == message,
    {
        let code = if code == 0 { -1 } else { code };
        ApiResponse { code, data, message }
    }
}

/// The code of `tihu_native::ErrNo::CommonError`.
pub const COMMON_ERROR_CODE: i32 = -2;

/// The code of `tihu_native::ErrNo::ParamFormatError`.
pub const PARAM_FORMAT_ERROR_CODE: i32 = -14;

/// The code of `tihu_native::ErrNo::SerializeError`.
pub const SERIALIZE_ERROR_CODE: i32 = -10;

/// The message of `tihu_native::ErrNo::ParamFormatError`.
pub open spec fn param_format_message() -> Seq<char> {
    "参数格式不正确"@
}

/// The message of `tihu_native::ErrNo::SerializeError` before the error's
/// own text.
pub open spec fn serialize_error_prefix() -> Seq<char> {
    "序列化数据失败,"@
}

/// Makes `tihu_native::ErrNo::CommonError` with this message and reads its
/// `code()` and `message()`. From tihu-native's source: the code is -2 and
/// the message is the text itself.
#[verifier::external_body]
pub(crate) fn common_error(message: &str) -> (r: ApiError)
    ensures
        r.code == COMMON_ERROR_CODE,
        r.message@ == message@,
{
    let err = tihu_native::ErrNo::CommonError(tihu::SharedString::from(message.to_string()));
    ApiError { code: err.code(), message: err.message().to_string() }
}

/// Makes `tihu_native::ErrNo::ParamFormatError` and reads its `code()` and
/// `message()`. From tihu-native's source: -14 and "参数格式不正确".
#[verifier::external_body]
pub(crate) fn param_format_error() -> (r: ApiError)
    ensures
        r.code == PARAM_FORMAT_ERROR_CODE,
        r.message@ == param_format_message(),
{
    let err = tihu_native::ErrNo::ParamFormatError;
    ApiError { code: err.code(), message: err.message().to_string() }
}

#[verifier::external_type_specification]
#[verifier::external_body]
pub struct ExSerdeJsonError(serde_json::Error);

/// Whether `message` begins with the message of
/// `tihu_native::ErrNo::SerializeError` before the error's own text.
pub open spec fn has_serialize_error_prefix(message: Seq<char>) -> bool {
    serialize_error_prefix().len() <= message.len() && message.subrange(0, serialize_error_prefix().len() as int)
        == serialize_error_prefix()
}

/// Makes `tihu_native::ErrNo::SerializeError` around the serializer's error
/// and reads its `code()` and `message()`. From tihu-native's source: -10,
/// and a message that is "序列化数据失败," followed by the error's own
/// text; that text (serde_json's `Display` of the error) is not stated.
#[verifier::external_body]
pub(crate) fn serialize_error(cause: serde_json::Error) -> (r: ApiError)
    ensures
        r.code == SERIALIZE_ERROR_CODE,
        has_serialize_error_prefix(r.message@),
{
    let err = tihu_native::ErrNo::SerializeError(cause);
    ApiError { code: err.code(), message: err.message().to_string() }
}

// ---------------------------------------------------------------------------
// Decimal text of an integer
// ---------------------------------------------------------------------------

/// The decimal digits (ASCII) of a natural number.
pub open spec fn spec_nat_decimal(n: nat) -> Seq<u8>
    decreases n,
{
    if n < 10 {
        seq![(48 + n) as u8]
    } else {
        spec_nat_decimal(n / 10) + seq![(48 + n % 10) as u8]
    }
}

/// The decimal text (ASCII) of an integer, as `to_string` writes it.
pub open spec fn spec_int_decimal(n: int) -> Seq<u8> {
    if n < 0 {
        seq![45u8] + spec_nat_decimal((-n) as nat)
    } else {
        spec_nat_decimal(n as nat)
    }
}

fn nat_decimal(n: u64) -> (r: Vec<u8>)
    ensures
        r@ == spec_nat_decimal(n as nat),
    decreases n,
{
    if n < 10 {
        let mut v = Vec::new();
        v.push((48 + n) as u8);
        assert(v@ =~= spec_nat_decimal(n as nat));
        v
    } else {
        let mut v = nat_decimal(n / 10);
        v.push((48 + n % 10) as u8);
        assert(v@ =~= spec_nat_decimal(n as nat));
        v
    }
}

/// The decimal text of an `i32`.
pub fn i32_decimal(n: i32) -> (r: Vec<u8>)
    ensures
        r@ == spec_int_decimal(n as int),
{
    if n < 0 {
        let magnitude = (-(n as i64)) as u64;
        let digits = nat_decimal(magnitude);
        let mut v = Vec::new();
        v.push(45u8);
        let mut d = digits;
        v.append(&mut d);
        assert(v@ =~= spec_int_decimal(n as int));
        v
    } else {
        nat_decimal(n as u64)
    }
}

/// The JSON text that answers an error when the regular answer could not
/// be written: `{"code":<code>,"message":"<message>"}`, the message put in
/// as it is.
pub open spec fn spec_error_json(code: int, message: Seq<char>) -> Seq<u8> {
    encode_utf8("{\"code\":"@) + spec_int_decimal(code) + encode_utf8(",\"message\":\""@) + encode_utf8(
        message,
    ) + encode_utf8("\"}"@)
}

// ---------------------------------------------------------------------------
// Context
// ---------------------------------------------------------------------------

/// The handler's settings and the mapping applied to every answer's code.
pub struct Context<F: Fn(i32) -> i32> {
    pub config: Config,
    adjust_error_code: F,
}

impl<F: Fn(i32) -> i32> Context<F> {
    /// The settings the context was made with.
    pub closed spec fn settings(&self) -> Config {
        self.config
    }

    /// The mapping applied to answer codes.
    pub closed spec fn adjuster(&self) -> F {
        self.adjust_error_code
    }

    /// The mapping may be called with every code.
    pub open spec fn wf(&self) -> bool {
        forall|c: i32| #[trigger] self.adjuster().requires((c,))
    }

    /// Whether `r` is an answer code that the mapping may give for `c`.
    pub open spec fn adjusts(&self, c: i32, r: i32) -> bool {
        self.adjuster().ensures((c,), r)
    }

    /// Makes the context from the settings and the code mapping.
    pub fn try_init_from_config(config: Config, adjust_error_code: F) -> (r: Context<F>)
        requires
            forall|c: i32| #[trigger] adjust_error_code.requires((c,)),
        ensures
            r.wf(),
            r.settings() == config,
            r.adjuster() == adjust_error_code,
    {
        Context { config, adjust_error_code }
    }

    /// Applies the code mapping.
    fn adjust_error_code(&self, error_code: i32) -> (r: i32)
        requires
            self.wf(),
        ensures
            self.adjusts(error_code, r),
    {
        assert(self.adjuster().requires((error_code,)));
        (self.adjust_error_code)(error_code)
    }

    /// The error answer written by hand (no serializer involved), for when
    /// the regular answer could not be written. The code is mapped.
    pub fn err_to_resp(&self, err: ApiError) -> (r: Vec<u8>)
        requires
            self.wf(),
        ensures
            exists|c: i32| self.adjusts(err.code, c) && r@ == spec_error_json(c as int, err.message@),
    {
        let code = self.adjust_error_code(err.code);
        let mut out = Vec::new();
        out.extend_from_slice("{\"code\":".as_bytes());
        let mut digits = i32_decimal(code);
        out.append(&mut digits);
        out.extend_from_slice(",\"message\":\"".as_bytes());
        out.extend_from_slice(err.message.as_str().as_bytes());
        out.extend_from_slice("\"}".as_bytes());
        assert(out@ =~= spec_error_json(code as int, err.message@));
        out
    }

    /// The error answer for a regular answer that the serializer could not
    /// write, from the serializer's error.
    pub fn serialize_failure_resp(&self, cause: serde_json::Error) -> (r: Vec<u8>)
        requires
            self.wf(),
        ensures
            exists|c: i32, m: Seq<char>|
                self.adjusts(SERIALIZE_ERROR_CODE, c) && has_serialize_error_prefix(m) && r@ == #[trigger] spec_error_json(
                    c as int,
                    m,
                ),
    {
        let err = serialize_error(cause);
        let ghost m = err.message@;
        let r = self.err_to_resp(err);
        r
    }

    /// The answer to a result: success with its data, or failure with the
    /// error's code and message; then the code is mapped. The caller sends
    /// it as JSON.
    pub fn result_to_json_resp<T>(&self, result: Result<T, ApiError>) -> (r: ApiResponse<T>)
        requires
            self.wf(),
        ensures
            match result {
                Ok(d) => self.adjusts(0, r.code) && r.data == Some(d) && r.message@ == success_message(),
                Err(e) => self.adjusts(if e.code == 0 { -1i32 } else { e.code }, r.code) && r.data is None
                    && r.message == e.message,
            },
    {
        let mut resp = match result {
            Ok(data) => ApiResponse::success(Some(data)),
            Err(err) => ApiResponse::failure(err.code, err.message, None),
        };
        resp.code = self.adjust_error_code(resp.code);
        resp
    }

    /// The bucket the objects are kept in.
    pub fn get_bucket(&self) -> (r: String)
        ensures
            r@ == self.settings().oss.bucket@,
    {
        self.config.oss.bucket.clone()
    }
}

} // verus!
