use vstd::prelude::*;

verus! {

/// The error that a model-status answer reports for a model version.
pub struct ModelStatusError {
    pub error_code: String,
    pub error_message: String,
}

/// Why a model version is not ready to serve.
pub enum StatusCheckError {
    /// The answer's `model_version_status` array is empty.
    NoVersionStatus,
    /// The first entry reports an error code other than `OK`.
    Model(ModelStatusError),
}

/// The status endpoint of a model version, narrowed to a label where one is
/// given.
pub open spec fn status_url_of(
    base: Seq<char>,
    model_name: Seq<char>,
    version: Seq<char>,
    label: Option<Seq<char>>,
) -> Seq<char> {
    let u = base + "/models/"@ + model_name + "/versions/"@ + version;
    match label {
        Some(l) => u + "/labels/"@ + l,
        None => u,
    }
}

/// The URL of a model version's status endpoint:
/// `{base}/models/{model_name}/versions/{version}`, followed by
/// `/labels/{label}` where a label is given.
pub fn status_url(base: &str, model_name: &str, version: &str, label: Option<&str>) -> (r: String)
    ensures
        r@ == status_url_of(
            base@,
            model_name@,
            version@,
            match label {
                Some(l) => Some(l@),
                None => None,
            },
        ),
{
    proof {
        reveal_strlit("/models/");
        reveal_strlit("/versions/");
        reveal_strlit("/labels/");
    }
    let mut url = String::from_str(base);
    url.append("/models/");
    url.append(model_name);
    url.append("/versions/");
    url.append(version);
    match label {
        Some(l) => {
            url.append("/labels/");
            url.append(l);
        },
        None => {},
    }
    url
}

impl ModelStatusError {
    /// A human-readable account: `Model status error: {code} - {message}`.
    pub fn message(&self) -> (r: String)
        ensures
            r@ == "Model status error: "@ + self.error_code@ + " - "@ + self.error_message@,
    {
        proof {
            reveal_strlit("Model status error: ");
            reveal_strlit(" - ");
        }
        String::from_str("Model status error: ").concat(self.error_code.as_str()).concat(
            " - ",
        ).concat(self.error_message.as_str())
    }
}

/// Reads a status answer from the `(error_code, error_message)` of each entry
/// of its `model_version_status` array: the version is ready when the first
/// entry's code is `OK`.
pub fn check_model_status(entries: Vec<(String, String)>) -> (r: Result<(), StatusCheckError>)
    ensures
        entries@.len() == 0 ==> r matches Err(StatusCheckError::NoVersionStatus),
        entries@.len() > 0 && entries@[0].0@ == "OK"@ ==> r is Ok,
        entries@.len() > 0 && entries@[0].0@ != "OK"@ ==> (r matches Err(StatusCheckError::Model(e))
            && e.error_code@ == entries@[0].0@ && e.error_message@ == entries@[0].1@),
{
    let mut entries = entries;
    if entries.len() == 0 {
        return Err(StatusCheckError::NoVersionStatus);
    }
    let (error_code, error_message) = entries.remove(0);
    let ok = String::from_str("OK");
    proof {
        reveal_strlit("OK");
    }
    if error_code == ok {
        Ok(())
    } else {
        Err(StatusCheckError::Model(ModelStatusError { error_code, error_message }))
    }
}

} // verus!
