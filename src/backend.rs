use vstd::prelude::*;

verus! {

/// The text of `b` in base64 over the URL-safe alphabet, with padding.
pub uninterp spec fn url_safe_b64(b: Seq<u8>) -> Seq<char>;

/// The length of padded base64 text for `n` bytes: four characters for each
/// started group of three bytes.
pub open spec fn b64_len(n: nat) -> nat {
    4 * ((n + 2) / 3)
}

/// Relies on base64_simd's `URL_SAFE.encode_to_string`: the URL-safe, padded
/// base64 text of the bytes, which depends on the bytes alone, of the length
/// that `encoded_length` gives. It panics where that length exceeds half of
/// `usize::MAX`.
#[verifier::external_body]
fn url_safe_encode(b: &[u8]) -> (r: String)
    requires
        b64_len(b@.len()) <= usize::MAX / 2,
    ensures
        r@ == url_safe_b64(b@),
        r@.len() == b64_len(b@.len()),
{
    base64_simd::URL_SAFE.encode_to_string(b)
}

/// Why one backend call gave no vector.
pub enum PredictError {
    /// The backend answered with a status outside 200..=299.
    BackendRejected { status: u16 },
    /// The backend answered with success, but its body was not an object
    /// with a `predictions` array of numeric arrays.
    BackendMalformedResponse,
    /// No HTTP answer came back at all.
    BackendUnreachable,
}

/// The decimal digit `d` as a character.
pub open spec fn digit_char(d: nat) -> char {
    if d == 0 { '0' }
    else if d == 1 { '1' }
    else if d == 2 { '2' }
    else if d == 3 { '3' }
    else if d == 4 { '4' }
    else if d == 5 { '5' }
    else if d == 6 { '6' }
    else if d == 7 { '7' }
    else if d == 8 { '8' }
    else { '9' }
}

/// `n` written in decimal, without leading zeros.
pub open spec fn decimal(n: nat) -> Seq<char>
    decreases n,
{
    if n < 10 {
        seq![digit_char(n)]
    } else {
        decimal(n / 10).push(digit_char(n % 10))
    }
}

/// The backend's prediction endpoint for one model version.
pub open spec fn predict_url_of(base: Seq<char>, model_name: Seq<char>, version: nat) -> Seq<char> {
    base + "/models/"@ + model_name + "/versions/"@ + decimal(version) + ":predict"@
}

/// The vector that a successful answer yields: its first prediction, or an
/// empty vector where it holds none.
pub open spec fn first_or_empty(predictions: Seq<Vec<u32>>) -> Seq<u32> {
    if predictions.len() > 0 {
        predictions[0]@
    } else {
        Seq::empty()
    }
}

/// Whether an HTTP status is a success.
pub open spec fn is_success(status: u16) -> bool {
    200 <= status <= 299
}

fn digit_str(d: u32) -> (r: &'static str)
    requires
        d < 10,
    ensures
        r@ == seq![digit_char(d as nat)],
{
    proof {
        reveal_strlit("0");
        reveal_strlit("1");
        reveal_strlit("2");
        reveal_strlit("3");
        reveal_strlit("4");
        reveal_strlit("5");
        reveal_strlit("6");
        reveal_strlit("7");
        reveal_strlit("8");
        reveal_strlit("9");
    }
    if d == 0 { "0" }
    else if d == 1 { "1" }
    else if d == 2 { "2" }
    else if d == 3 { "3" }
    else if d == 4 { "4" }
    else if d == 5 { "5" }
    else if d == 6 { "6" }
    else if d == 7 { "7" }
    else if d == 8 { "8" }
    else { "9" }
}

/// `n` written in decimal.
pub fn decimal_string(n: u32) -> (r: String)
    ensures
        r@ == decimal(n as nat),
    decreases n,
{
    if n < 10 {
        String::from_str(digit_str(n))
    } else {
        let mut s = decimal_string(n / 10);
        s.append(digit_str(n % 10));
        s
    }
}

/// The URL of the prediction endpoint:
/// `{base}/models/{model_name}/versions/{version}:predict`.
pub fn predict_url(base: &str, model_name: &str, version: u32) -> (r: String)
    ensures
        r@ == predict_url_of(base@, model_name@, version as nat),
{
    let mut url = String::from_str(base);
    url.append("/models/");
    url.append(model_name);
    url.append("/versions/");
    let v = decimal_string(version);
    url.append(v.as_str());
    url.append(":predict");
    proof {
        reveal_strlit("/models/");
        reveal_strlit("/versions/");
        reveal_strlit(":predict");
    }
    url
}

/// The image payload as it is sent to the backend: URL-safe base64 text.
pub fn encode_image(image: &Vec<u8>) -> (r: String)
    requires
        b64_len(image@.len()) <= usize::MAX / 2,
    ensures
        r@ == url_safe_b64(image@),
        r@.len() == b64_len(image@.len()),
{
    url_safe_encode(image.as_slice())
}

/// What one backend exchange means: no answer (`status` is `None`) makes
/// the backend unreachable; a status outside 200..=299 is a rejection; a
/// success whose body did not parse (`predictions` is `None`) is a malformed
/// answer; otherwise the first prediction, or an empty vector where there is
/// none. Each vector element is the bit pattern of a 32-bit float.
pub fn interpret_reply(status: Option<u16>, predictions: Option<Vec<Vec<u32>>>) -> (r: Result<
    Vec<u32>,
    PredictError,
>)
    ensures
        status is None ==> r == Err::<Vec<u32>, PredictError>(PredictError::BackendUnreachable),
        status is Some && !is_success(status->Some_0) ==> r == Err::<Vec<u32>, PredictError>(
            PredictError::BackendRejected { status: status->Some_0 },
        ),
        status is Some && is_success(status->Some_0) && predictions is None ==> r == Err::<
            Vec<u32>,
            PredictError,
        >(PredictError::BackendMalformedResponse),
        status is Some && is_success(status->Some_0) && predictions is Some ==> (r is Ok
            && r->Ok_0@ == first_or_empty(predictions->Some_0@)),
{
    let st = match status {
        None => {
            return Err(PredictError::BackendUnreachable);
        },
        Some(st) => st,
    };
    if st < 200 || st > 299 {
        return Err(PredictError::BackendRejected { status: st });
    }
    match predictions {
        None => Err(PredictError::BackendMalformedResponse),
        Some(p) => {
            let mut p = p;
            if p.len() > 0 {
                Ok(p.remove(0))
            } else {
                Ok(Vec::new())
            }
        },
    }
}

/// The hexadecimal digit `d` as a lower-case character.
pub open spec fn hex_char(d: nat) -> char {
    if d < 10 { digit_char(d) }
    else if d == 10 { 'a' }
    else if d == 11 { 'b' }
    else if d == 12 { 'c' }
    else if d == 13 { 'd' }
    else if d == 14 { 'e' }
    else { 'f' }
}

/// How one character stands inside a JSON string literal: a quote and a
/// backslash are escaped with a backslash, a control character is written as
/// `\u00XX`, and every other character stands for itself.
pub open spec fn json_escape_char(c: char) -> Seq<char> {
    if c == '"' {
        seq!['\\', '"']
    } else if c == '\\' {
        seq!['\\', '\\']
    } else if (c as u32) < 0x20 {
        seq!['\\', 'u', '0', '0', hex_char((c as u32 / 16) as nat), hex_char((c as u32 % 16) as nat)]
    } else {
        seq![c]
    }
}

/// The text of `s` inside a JSON string literal.
pub open spec fn json_escape(s: Seq<char>) -> Seq<char>
    decreases s.len(),
{
    if s.len() == 0 {
        Seq::empty()
    } else {
        json_escape(s.drop_last()) + json_escape_char(s.last())
    }
}

/// The body of a prediction request: one instance whose field `input_name`
/// holds `payload`, i.e. `{"instances":[{"<input_name>":"<payload>"}]}`.
pub open spec fn request_body_of(input_name: Seq<char>, payload: Seq<char>) -> Seq<char> {
    "{\"instances\":[{\""@ + json_escape(input_name) + "\":\""@ + json_escape(payload) + "\"}]}"@
}

fn hex_str(d: u32) -> (r: &'static str)
    requires
        d < 16,
    ensures
        r@ == seq![hex_char(d as nat)],
{
    proof {
        reveal_strlit("a");
        reveal_strlit("b");
        reveal_strlit("c");
        reveal_strlit("d");
        reveal_strlit("e");
        reveal_strlit("f");
    }
    if d < 10 { digit_str(d) }
    else if d == 10 { "a" }
    else if d == 11 { "b" }
    else if d == 12 { "c" }
    else if d == 13 { "d" }
    else if d == 14 { "e" }
    else { "f" }
}

/// Appends the JSON string-literal text of `s` to `out`.
pub fn append_json_escaped(out: &mut String, s: &str)
    ensures
        final(out)@ == old(out)@ + json_escape(s@),
{
    proof {
        reveal_strlit("\\\"");
        reveal_strlit("\\\\");
        reveal_strlit("\\u00");
    }
    let n = s.unicode_len();
    let mut i: usize = 0;
    while i < n
        invariant
            n == s@.len(),
            i <= n,
            out@ == old(out)@ + json_escape(s@.subrange(0, i as int)),
        decreases n - i,
    {
        let c = s.get_char(i);
        let ghost before = out@;
        if c == '"' {
            out.append("\\\"");
        } else if c == '\\' {
            out.append("\\\\");
        } else if (c as u32) < 0x20 {
            out.append("\\u00");
            out.append(hex_str(c as u32 / 16));
            out.append(hex_str(c as u32 % 16));
        } else {
            out.append(s.substring_char(i, i + 1));
        }
        proof {
            reveal_strlit("\\\"");
            reveal_strlit("\\\\");
            reveal_strlit("\\u00");
            assert(out@ =~= before + json_escape_char(c));
            let next = s@.subrange(0, i + 1);
            assert(next.drop_last() =~= s@.subrange(0, i as int));
            assert(next.last() == c);
            assert(json_escape(next) == json_escape(next.drop_last()) + json_escape_char(next.last()));
            assert(out@ =~= old(out)@ + json_escape(next));
        }
        i = i + 1;
    }
    assert(s@.subrange(0, n as int) =~= s@);
}

/// The JSON body of a prediction request for one image.
pub fn request_body(input_name: &str, payload: &str) -> (r: String)
    ensures
        r@ == request_body_of(input_name@, payload@),
{
    proof {
        reveal_strlit("{\"instances\":[{\"");
        reveal_strlit("\":\"");
        reveal_strlit("\"}]}");
    }
    let mut body = String::from_str("{\"instances\":[{\"");
    append_json_escaped(&mut body, input_name);
    body.append("\":\"");
    append_json_escaped(&mut body, payload);
    body.append("\"}]}");
    body
}

} // verus!
