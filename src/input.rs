use vstd::prelude::*;

verus! {

/// The process options: the registry source, the address to serve on, and
/// the backend's base URL.
pub struct Opts {
    pub config: String,
    pub addr: String,
    pub tensorflow_api_addr: String,
}

/// Why the options were refused.
pub enum OptsError {
    /// The backend base URL starts with neither `http://` nor `https://`.
    InvalidBackendUrl { addr: String },
}

/// The position of the first `:` in `s`, if any.
pub open spec fn first_colon(s: Seq<char>) -> Option<int> {
    if exists|i: int| 0 <= i < s.len() && s[i] == ':' && forall|j: int| 0 <= j < i ==> s[j] != ':' {
        Some(choose|i: int| 0 <= i < s.len() && s[i] == ':' && forall|j: int| 0 <= j < i ==> s[j] != ':')
    } else {
        None
    }
}

/// `s` begins with `p`.
pub open spec fn has_prefix(s: Seq<char>, p: Seq<char>) -> bool {
    p.len() <= s.len() && s.subrange(0, p.len() as int) == p
}

/// A backend base URL is accepted when it names the http or https scheme.
pub open spec fn backend_url_ok(s: Seq<char>) -> bool {
    has_prefix(s, "http://"@) || has_prefix(s, "https://"@)
}

/// Whether `s` begins with `p`.
pub fn starts_with(s: &str, p: &str) -> (r: bool)
    ensures
        r == has_prefix(s@, p@),
{
    let n = p.unicode_len();
    if n > s.unicode_len() {
        return false;
    }
    let mut i: usize = 0;
    while i < n
        invariant
            n == p@.len(),
            n <= s@.len(),
            i <= n,
            forall|j: int| 0 <= j < i ==> s@[j] == p@[j],
        decreases n - i,
    {
        if s.get_char(i) != p.get_char(i) {
            assert(s@.subrange(0, n as int)[i as int] != p@[i as int]);
            return false;
        }
        i = i + 1;
    }
    assert(s@.subrange(0, n as int) =~= p@);
    true
}

/// Splits `s` at its first `:` into the part before and the part after.
pub fn split_ip_port(s: &str) -> (r: Option<(&str, &str)>)
    ensures
        first_colon(s@) is None ==> r is None,
        first_colon(s@) matches Some(i) ==> (r matches Some((ip, port)) && ip@ == s@.subrange(0, i)
            && port@ == s@.subrange(i + 1, s@.len() as int)),
{
    let n = s.unicode_len();
    let mut i: usize = 0;
    while i < n
        invariant
            n == s@.len(),
            i <= n,
            forall|j: int| 0 <= j < i ==> s@[j] != ':',
        decreases n - i,
    {
        if s.get_char(i) == ':' {
            proof {
                let k = choose|k: int| 0 <= k < s@.len() && s@[k] == ':' && forall|j: int| 0 <= j < k ==> s@[j] != ':';
                if k < i {
                } else if k > i {
                    assert(s@[i as int] == ':');
                }
                assert(k == i);
            }
            return Some((s.substring_char(0, i), s.substring_char(i + 1, n)));
        }
        i = i + 1;
    }
    None
}

impl Default for Opts {
    fn default() -> (r: Opts)
        ensures
            r.config@ == "config.yaml"@,
            r.addr@ == "0.0.0.0:1301"@,
            r.tensorflow_api_addr@ == "http://localhost:8501/v1"@,
    {
        proof {
            reveal_strlit("config.yaml");
            reveal_strlit("0.0.0.0:1301");
            reveal_strlit("http://localhost:8501/v1");
        }
        Opts {
            config: String::from_str("config.yaml"),
            addr: String::from_str("0.0.0.0:1301"),
            tensorflow_api_addr: String::from_str("http://localhost:8501/v1"),
        }
    }
}

impl OptsError {
    /// A human-readable account of the error.
    pub fn message(&self) -> (r: String)
        ensures
            match self {
                OptsError::InvalidBackendUrl { addr } => r@ == "Invalid tensorflow_api_addr: "@ + addr@,
            },
    {
        match self {
            OptsError::InvalidBackendUrl { addr } => {
                proof {
                    reveal_strlit("Invalid tensorflow_api_addr: ");
                }
                String::from_str("Invalid tensorflow_api_addr: ").concat(addr.as_str())
            },
        }
    }
}

/// The address after an `ADDR` value is taken into account: the value
/// where it has the form `ip:port`, the given address otherwise.
pub open spec fn settled_addr(addr: Seq<char>, addr_env: Option<&str>) -> Seq<char> {
    match addr_env {
        Some(e) => if first_colon(e@) is Some { e@ } else { addr },
        None => addr,
    }
}

/// Settles the options after the command line: an `ADDR` value of the form
/// `ip:port` replaces the address; then the backend base URL must name the
/// http or https scheme.
pub fn settle_opts(opts: Opts, addr_env: Option<&str>) -> (r: Result<Opts, OptsError>)
    ensures
        !backend_url_ok(opts.tensorflow_api_addr@) ==> (r matches Err(OptsError::InvalidBackendUrl { addr })
            && addr@ == opts.tensorflow_api_addr@),
        backend_url_ok(opts.tensorflow_api_addr@) ==> (r matches Ok(o)
            && o.config@ == opts.config@
            && o.tensorflow_api_addr@ == opts.tensorflow_api_addr@
            && o.addr@ == settled_addr(opts.addr@, addr_env)),
{
    let mut opts = opts;
    match addr_env {
        Some(e) => match split_ip_port(e) {
            Some((ip, port)) => {
                let addr = String::from_str(ip).concat(":").concat(port);
                proof {
                    reveal_strlit(":");
                    let i = first_colon(e@)->Some_0;
                    assert(addr@ =~= e@);
                }
                opts.addr = addr;
            },
            None => {},
        },
        None => {},
    }
    let ok_http = starts_with(opts.tensorflow_api_addr.as_str(), "http://");
    let ok_https = starts_with(opts.tensorflow_api_addr.as_str(), "https://");
    if !ok_http && !ok_https {
        let addr = opts.tensorflow_api_addr;
        return Err(OptsError::InvalidBackendUrl { addr });
    }
    Ok(opts)
}

} // verus!
