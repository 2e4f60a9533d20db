//! The request-to-process gateway: script configuration, the CGI environment
//! builder, and the pre-spawn checks, all over plain values.

use vstd::prelude::*;
use crate::text::{
    ascii_view_bytes, lemma_ascii_char_u8_cast, parse_u16_str, spec_parse_dec, spec_dec_digits,
    spec_upper, u16_to_dec_string, ascii_to_upper, parse_u32_str,
};
use crate::env_map::{EnvMap, spec_assoc_map, spec_pair_views};

verus! {

/// The per-listener configuration of one CGI executable.
#[derive(Debug, Clone)]
pub struct Script {
    /// Path to the CGI executable.
    pub path: String,
    /// URI root prefix; the empty string stands for "/".
    pub root: String,
    /// Working directory override; the executable's parent directory otherwise.
    pub dir: Option<String>,
    /// Extra environment pairs, applied last.
    pub env: Vec<(String, String)>,
    /// Extra arguments for the executable.
    pub args: Vec<String>,
    /// Names of host variables to pass through when set and non-empty.
    pub inherited_env: Vec<String>,
}

/// One distinct header name of the request, with every value under that
/// name in order; a value is `None` where it does not read as ASCII text.
pub struct HeaderField {
    pub name: String,
    pub values: Vec<Option<String>>,
}

/// The parts of the request that the environment builder reads.
pub struct RequestInfo {
    pub method: String,
    pub path: String,
    pub query: Option<String>,
    pub request_uri: Option<String>,
    pub headers: Vec<HeaderField>,
    pub remote_addr: String,
    pub remote_port: u16,
}

/// An empty root stands for "/".
pub open spec fn spec_effective_root(root: Seq<char>) -> Seq<char> {
    if root.len() == 0 {
        "/"@
    } else {
        root
    }
}

/// Normalizes the configured root.
pub fn effective_root(root: &String) -> (r: String)
    ensures
        r@ == spec_effective_root(root@),
{
    if root.as_str().is_empty() {
        String::from_str("/")
    } else {
        root.clone()
    }
}

pub open spec fn spec_starts_with(s: Seq<char>, p: Seq<char>) -> bool {
    s.len() >= p.len() && s.subrange(0, p.len() as int) == p
}

/// Whether `s` begins with `p`, character for character.
pub fn starts_with(s: &str, p: &str) -> (r: bool)
    ensures
        r == spec_starts_with(s@, p@),
{
    let sn = s.unicode_len();
    let pn = p.unicode_len();
    if sn < pn {
        return false;
    }
    let mut i: usize = 0;
    while i < pn
        invariant
            0 <= i <= pn,
            pn == p@.len(),
            sn == s@.len(),
            sn >= pn,
            forall|j: int| 0 <= j < i ==> s@[j] == p@[j],
        decreases pn - i,
    {
        if s.get_char(i) != p.get_char(i) {
            proof {
                assert(s@.subrange(0, p@.len() as int)[i as int] != p@[i as int]);
            }
            return false;
        }
        i += 1;
    }
    proof {
        assert(s@.subrange(0, p@.len() as int) =~= p@);
    }
    true
}

/// The request path with the configured root stripped, when the root is not
/// "/" and the path starts with it; the whole path otherwise.
pub open spec fn spec_path_info(root_eff: Seq<char>, path: Seq<char>) -> Seq<char> {
    if root_eff != "/"@ && spec_starts_with(path, root_eff) {
        path.subrange(root_eff.len() as int, path.len() as int)
    } else {
        path
    }
}

/// Computes the path-info for a normalized root.
pub fn path_info(root_eff: &String, path: &String) -> (r: String)
    ensures
        r@ == spec_path_info(root_eff@, path@),
{
    let slash = String::from_str("/");
    if !root_eff.eq(&slash) && starts_with(path.as_str(), root_eff.as_str()) {
        let rn = root_eff.as_str().unicode_len();
        let pn = path.as_str().unicode_len();
        path.as_str().substring_char(rn, pn).to_owned()
    } else {
        path.clone()
    }
}

/// Whether `h` holds exactly one ':'.
pub open spec fn spec_single_colon(h: Seq<char>) -> bool {
    (exists|i: int| 0 <= i < h.len() && h[i] == ':') && (forall|i: int, j: int|
        0 <= i < h.len() && 0 <= j < h.len() && h[i] == ':' && h[j] == ':' ==> i == j)
}

pub open spec fn spec_colon_pos(h: Seq<char>) -> int {
    choose|i: int| 0 <= i < h.len() && h[i] == ':'
}

/// Splitting a Host value into name and port: the value must hold exactly
/// one ':' and what follows it must parse as a 16-bit port.
pub open spec fn spec_host_port(h: Seq<char>) -> Option<(Seq<char>, u16)> {
    if spec_single_colon(h) {
        let i = spec_colon_pos(h);
        match spec_parse_dec(h.subrange(i + 1, h.len() as int), u16::MAX as nat) {
            Some(p) => Some((h.subrange(0, i), p as u16)),
            None => None,
        }
    } else {
        None
    }
}

/// Splits a Host header value into host name and port, if it has the
/// `name:port` shape.
pub fn get_host_port(value: &str) -> (r: Option<(String, u16)>)
    requires
        vstd::string::is_ascii(value),
    ensures
        match r {
            Some((n, p)) => spec_host_port(value@) == Some((n@, p)),
            None => spec_host_port(value@) is None,
        },
{
    let b = ascii_view_bytes(value);
    let n = b.len();
    let mut i: usize = 0;
    let mut colon: Option<usize> = None;
    while i < n
        invariant
            0 <= i <= n,
            n == b@.len(),
            b@.len() == value@.len(),
            vstd::string::is_ascii(value),
            forall|j: int| 0 <= j < value@.len() ==> b@[j] == (#[trigger] value@[j]) as u8,
            forall|j: int| 0 <= j < value@.len() ==> ((#[trigger] value@[j]) as u32) < 128,
            match colon {
                Some(c) => 0 <= c < i && value@[c as int] == ':' && forall|j: int|
                    0 <= j < i && j != c ==> value@[j] != ':',
                None => forall|j: int| 0 <= j < i ==> value@[j] != ':',
            },
        decreases n - i,
    {
        proof {
            lemma_ascii_char_u8_cast(value@[i as int]);
        }
        if b[i] == 58 {
            if colon.is_some() {
                proof {
                    let c = colon->Some_0;
                    assert(value@[c as int] == ':' && value@[i as int] == ':' && c != i);
                    assert(!spec_single_colon(value@));
                }
                return None;
            }
            colon = Some(i);
        }
        i += 1;
    }
    match colon {
        Some(c) => {
            proof {
                assert(value@[c as int] == ':');
                assert(spec_single_colon(value@));
                assert(spec_colon_pos(value@) == c) by {
                    let w = spec_colon_pos(value@);
                    assert(0 <= w < value@.len() && value@[w] == ':');
                }
            }
            let name = value.substring_ascii(0, c);
            let rest = value.substring_ascii(c + 1, n);
            match parse_u16_str(rest) {
                Some(p) => Some((name.to_owned(), p)),
                None => None,
            }
        },
        None => {
            proof {
                assert(!spec_single_colon(value@));
            }
            None
        },
    }
}

/// Names the parent directory that std's path logic assigns to a path:
/// the path without its final component, `None` for a root or empty path.
pub uninterp spec fn parent_dir_of(path: Seq<char>) -> Option<Seq<char>>;

/// Relies on std's Path::parent for the parent directory of the executable
/// path; the result is a function of the path text alone.
#[verifier::external_body]
fn parent_dir(path: &str) -> (r: Option<String>)
    ensures
        match r {
            Some(p) => parent_dir_of(path@) == Some(p@),
            None => parent_dir_of(path@) is None,
        },
{
    std::path::Path::new(path).parent().map(|p| p.to_string_lossy().into_owned())
}

/// The child's working directory: the configured override, else the parent
/// directory of the executable path, else ".".
pub open spec fn spec_working_dir(dir: Option<Seq<char>>, path: Seq<char>) -> Seq<char> {
    match dir {
        Some(d) => d,
        None => match parent_dir_of(path) {
            Some(p) => if p.len() == 0 {
                "."@
            } else {
                p
            },
            None => "."@,
        },
    }
}

/// Picks the working directory for the child process.
pub fn working_dir(script: &Script) -> (r: String)
    ensures
        r@ == spec_working_dir(
            match script.dir {
                Some(ref d) => Some(d@),
                None => None,
            },
            script.path@,
        ),
{
    match &script.dir {
        Some(d) => d.clone(),
        None => {
            match parent_dir(script.path.as_str()) {
                Some(p) => {
                    if p.as_str().is_empty() {
                        String::from_str(".")
                    } else {
                        p
                    }
                },
                None => String::from_str("."),
            }
        },
    }
}

pub open spec fn spec_opt_view(v: Option<String>) -> Option<Seq<char>> {
    match v {
        Some(s) => Some(s@),
        None => None,
    }
}

pub open spec fn spec_values_views(vs: Seq<Option<String>>) -> Seq<Option<Seq<char>>> {
    vs.map_values(|v: Option<String>| spec_opt_view(v))
}

pub open spec fn spec_string_views(s: Seq<String>) -> Seq<Seq<char>> {
    s.map_values(|x: String| x@)
}

impl HeaderField {
    /// The name is ASCII (the HTTP codec lower-cases it), and so is every
    /// value that was kept.
    pub open spec fn wf(&self) -> bool {
        &&& vstd::utf8::is_ascii_chars(self.name@)
        &&& forall|j: int|
            0 <= j < self.values@.len() ==> match #[trigger] self.values@[j] {
                Some(s) => vstd::utf8::is_ascii_chars(s@),
                None => true,
            }
    }
}

pub open spec fn spec_headers_wf(hs: Seq<HeaderField>) -> bool {
    forall|i: int| 0 <= i < hs.len() ==> (#[trigger] hs[i]).wf()
}

impl RequestInfo {
    pub open spec fn wf(&self) -> bool {
        spec_headers_wf(self.headers@)
    }
}

/// The first value of the first header field named `name`, if it was kept.
pub open spec fn spec_header_value(hs: Seq<HeaderField>, name: Seq<char>) -> Option<Seq<char>>
    decreases hs.len(),
{
    if hs.len() == 0 {
        None
    } else if hs[0].name@ == name {
        if hs[0].values@.len() > 0 {
            spec_opt_view(hs[0].values@[0])
        } else {
            None
        }
    } else {
        spec_header_value(hs.drop_first(), name)
    }
}

proof fn lemma_header_value_skip(hs: Seq<HeaderField>, name: Seq<char>, i: int)
    requires
        0 <= i < hs.len(),
        hs[i].name@ != name,
    ensures
        spec_header_value(hs.skip(i), name) == spec_header_value(hs.skip(i + 1), name),
{
    assert(hs.skip(i)[0] == hs[i]);
    assert(hs.skip(i).drop_first() =~= hs.skip(i + 1));
}

/// Finds the first value recorded for `name`, as the spec says.
#[verifier::loop_isolation(false)]
pub fn find_header_value<'a>(headers: &'a Vec<HeaderField>, name: &String) -> (r: Option<
    &'a String,
>)
    ensures
        match r {
            Some(v) => spec_header_value(headers@, name@) == Some(v@),
            None => spec_header_value(headers@, name@) is None,
        },
        spec_headers_wf(headers@) ==> match r {
            Some(v) => vstd::utf8::is_ascii_chars(v@),
            None => true,
        },
{
    let n = headers.len();
    let mut i: usize = 0;
    proof {
        assert(headers@.skip(0) =~= headers@);
    }
    while i < n
        invariant
            0 <= i <= n,
            n == headers@.len(),
            spec_header_value(headers@, name@) == spec_header_value(headers@.skip(i as int), name@),
        decreases n - i,
    {
        if headers[i].name.eq(name) {
            proof {
                assert(headers@.skip(i as int)[0] == headers@[i as int]);
            }
            if headers[i].values.len() > 0 {
                match &headers[i].values[0] {
                    Some(v) => {
                        return Some(v);
                    },
                    None => {
                        return None;
                    },
                }
            } else {
                return None;
            }
        }
        proof {
            lemma_header_value_skip(headers@, name@, i as int);
        }
        i += 1;
    }
    proof {
        assert(headers@.skip(n as int) =~= Seq::<HeaderField>::empty());
    }
    None
}

/// The first value for `k` in a plain key-value listing.
pub open spec fn spec_env_lookup(env: Seq<(Seq<char>, Seq<char>)>, k: Seq<char>) -> Option<
    Seq<char>,
>
    decreases env.len(),
{
    if env.len() == 0 {
        None
    } else if env[0].0 == k {
        Some(env[0].1)
    } else {
        spec_env_lookup(env.drop_first(), k)
    }
}

/// Looks a variable up in the host environment listing.
#[verifier::loop_isolation(false)]
pub fn env_lookup<'a>(env: &'a Vec<(String, String)>, k: &String) -> (r: Option<&'a String>)
    ensures
        match r {
            Some(v) => spec_env_lookup(spec_pair_views(env@), k@) == Some(v@),
            None => spec_env_lookup(spec_pair_views(env@), k@) is None,
        },
{
    let n = env.len();
    let mut i: usize = 0;
    proof {
        assert(spec_pair_views(env@).skip(0) =~= spec_pair_views(env@));
    }
    while i < n
        invariant
            0 <= i <= n,
            n == env@.len(),
            spec_env_lookup(spec_pair_views(env@), k@) == spec_env_lookup(
                spec_pair_views(env@).skip(i as int),
                k@,
            ),
        decreases n - i,
    {
        if env[i].0.eq(k) {
            proof {
                assert(spec_pair_views(env@).skip(i as int)[0] == spec_pair_views(env@)[i as int]);
            }
            return Some(&env[i].1);
        }
        proof {
            let pv = spec_pair_views(env@);
            assert(pv.skip(i as int)[0] == pv[i as int]);
            assert(pv.skip(i as int).drop_first() =~= pv.skip(i + 1));
        }
        i += 1;
    }
    proof {
        assert(spec_pair_views(env@).skip(n as int) =~= Seq::<(Seq<char>, Seq<char>)>::empty());
    }
    None
}

/// Stage one: fixed server metadata.
pub open spec fn spec_stage_fixed() -> Seq<(Seq<char>, Seq<char>)> {
    seq![
        ("SERVER_SOFTWARE"@, "cgi-server-rs"@),
        ("SERVER_PROTOCOL"@, "HTTP/1.1"@),
        ("GATEWAY_INTERFACE"@, "CGI/1.1"@),
    ]
}

/// Stage two: the Host header, split into server name and port when it has
/// the `name:port` shape.
pub open spec fn spec_stage_host(hs: Seq<HeaderField>) -> Seq<(Seq<char>, Seq<char>)> {
    match spec_header_value(hs, "host"@) {
        None => seq![],
        Some(h) => seq![("HTTP_HOST"@, h)] + (match spec_host_port(h) {
            Some((nm, p)) => seq![
                ("SERVER_NAME"@, nm),
                ("SERVER_PORT"@, spec_dec_digits(p as nat)),
            ],
            None => seq![("SERVER_NAME"@, h), ("SERVER_PORT"@, "80"@)],
        }),
    }
}

/// Stage three: method, query string, and the request-URI form.
pub open spec fn spec_stage_request(
    method: Seq<char>,
    query: Option<Seq<char>>,
    request_uri: Option<Seq<char>>,
) -> Seq<(Seq<char>, Seq<char>)> {
    seq![("REQUEST_METHOD"@, method)] + (match query {
        Some(q) => seq![("QUERY_STRING"@, q)],
        None => seq![],
    }) + (match request_uri {
        Some(u) => seq![("REQUEST_URI"@, u)],
        None => seq![],
    })
}

/// Stage four: path-info, script name and file name.
pub open spec fn spec_stage_paths(root: Seq<char>, path: Seq<char>, script_path: Seq<char>) -> Seq<
    (Seq<char>, Seq<char>),
> {
    seq![
        ("PATH_INFO"@, spec_path_info(spec_effective_root(root), path)),
        ("SCRIPT_NAME"@, spec_effective_root(root)),
        ("SCRIPT_FILENAME"@, script_path),
    ]
}

/// Stage five: the peer's address and port.
pub open spec fn spec_stage_remote(addr: Seq<char>, port: u16) -> Seq<(Seq<char>, Seq<char>)> {
    seq![
        ("REMOTE_ADDR"@, addr),
        ("REMOTE_HOST"@, addr),
        ("REMOTE_PORT"@, spec_dec_digits(port as nat)),
    ]
}

/// Joins the values after the first one: each kept value is appended behind
/// the separator, dropped values leave no trace.
pub open spec fn spec_join_tail(vs: Seq<Option<Seq<char>>>, sep: Seq<char>) -> Seq<char>
    decreases vs.len(),
{
    if vs.len() == 0 {
        Seq::empty()
    } else {
        spec_join_tail(vs.drop_last(), sep) + (match vs.last() {
            Some(v) => sep + v,
            None => Seq::empty(),
        })
    }
}

/// The writes of stage six for one header field: `HTTP_<NAME>` set to the
/// joined values, unless the name is PROXY or the first value was dropped.
pub open spec fn spec_header_write(name: Seq<char>, vs: Seq<Option<Seq<char>>>) -> Seq<
    (Seq<char>, Seq<char>),
> {
    let un = spec_upper(name);
    if un == "PROXY"@ {
        seq![]
    } else if vs.len() > 0 && vs[0] is Some {
        let sep = if un == "COOKIE"@ {
            ";"@
        } else {
            ","@
        };
        seq![(("HTTP_"@ + un), (vs[0]->Some_0 + spec_join_tail(vs.drop_first(), sep)))]
    } else {
        seq![]
    }
}

/// Stage six: one write for each distinct header name, in order.
pub open spec fn spec_stage_headers(hs: Seq<HeaderField>) -> Seq<(Seq<char>, Seq<char>)>
    decreases hs.len(),
{
    if hs.len() == 0 {
        seq![]
    } else {
        spec_stage_headers(hs.drop_last()) + spec_header_write(
            hs.last().name@,
            spec_values_views(hs.last().values@),
        )
    }
}

/// Stage seven: canonical content length, and the content type if non-empty.
pub open spec fn spec_stage_content(hs: Seq<HeaderField>) -> Seq<(Seq<char>, Seq<char>)> {
    (match spec_header_value(hs, "content-length"@) {
        Some(s) => match spec_parse_dec(s, u32::MAX as nat) {
            Some(v) => seq![("CONTENT_LENGTH"@, spec_dec_digits(v))],
            None => seq![],
        },
        None => seq![],
    }) + (match spec_header_value(hs, "content-type"@) {
        Some(s) => if s.len() > 0 {
            seq![("CONTENT_TYPE"@, s)]
        } else {
            seq![]
        },
        None => seq![],
    })
}

/// Stage eight: the search path, from the host or the fixed fallback.
pub open spec fn spec_stage_path_var(host_env: Seq<(Seq<char>, Seq<char>)>) -> Seq<
    (Seq<char>, Seq<char>),
> {
    seq![
        ("PATH"@, (match spec_env_lookup(host_env, "PATH"@) {
            Some(v) => if v.len() > 0 {
                v
            } else {
                "/bin:/usr/bin:/usr/ucb:/usr/bsd:/usr/local/bin"@
            },
            None => "/bin:/usr/bin:/usr/ucb:/usr/bsd:/usr/local/bin"@,
        })),
    ]
}

/// Stages nine and ten: named host variables passed through when set and
/// non-empty.
pub open spec fn spec_stage_inherit(
    names: Seq<Seq<char>>,
    host_env: Seq<(Seq<char>, Seq<char>)>,
) -> Seq<(Seq<char>, Seq<char>)>
    decreases names.len(),
{
    if names.len() == 0 {
        seq![]
    } else {
        spec_stage_inherit(names.drop_last(), host_env) + (match spec_env_lookup(
            host_env,
            names.last(),
        ) {
            Some(v) => if v.len() > 0 {
                seq![(names.last(), v)]
            } else {
                seq![]
            },
            None => seq![],
        })
    }
}

/// The whole ordered write listing of the environment builder.
pub open spec fn spec_env_writes(
    script: Script,
    req: RequestInfo,
    host_env: Seq<(String, String)>,
    loader_vars: Seq<String>,
) -> Seq<(Seq<char>, Seq<char>)> {
    spec_stage_fixed() + spec_stage_host(req.headers@) + spec_stage_request(
        req.method@,
        spec_opt_view(req.query),
        spec_opt_view(req.request_uri),
    ) + spec_stage_paths(script.root@, req.path@, script.path@) + spec_stage_remote(
        req.remote_addr@,
        req.remote_port,
    ) + spec_stage_headers(req.headers@) + spec_stage_content(req.headers@) + spec_stage_path_var(
        spec_pair_views(host_env),
    ) + spec_stage_inherit(spec_string_views(script.inherited_env@), spec_pair_views(host_env))
        + spec_stage_inherit(spec_string_views(loader_vars), spec_pair_views(host_env))
        + spec_pair_views(script.env@)
}

/// The environment map that the builder must produce.
pub open spec fn spec_env_map(
    script: Script,
    req: RequestInfo,
    host_env: Seq<(String, String)>,
    loader_vars: Seq<String>,
) -> Map<Seq<char>, Seq<char>> {
    spec_assoc_map(spec_env_writes(script, req, host_env, loader_vars))
}

proof fn lemma_pair_views_concat(a: Seq<(String, String)>, b: Seq<(String, String)>)
    ensures
        spec_pair_views(a + b) == spec_pair_views(a) + spec_pair_views(b),
{
    assert(spec_pair_views(a + b) =~= spec_pair_views(a) + spec_pair_views(b));
}

fn stage_fixed() -> (w: Vec<(String, String)>)
    ensures
        spec_pair_views(w@) == spec_stage_fixed(),
{
    let mut w: Vec<(String, String)> = Vec::new();
    w.push((String::from_str("SERVER_SOFTWARE"), String::from_str("cgi-server-rs")));
    w.push((String::from_str("SERVER_PROTOCOL"), String::from_str("HTTP/1.1")));
    w.push((String::from_str("GATEWAY_INTERFACE"), String::from_str("CGI/1.1")));
    proof {
        assert(spec_pair_views(w@) =~= spec_stage_fixed());
    }
    w
}

fn stage_host(headers: &Vec<HeaderField>) -> (w: Vec<(String, String)>)
    requires
        spec_headers_wf(headers@),
    ensures
        spec_pair_views(w@) == spec_stage_host(headers@),
{
    let hostname = String::from_str("host");
    match find_header_value(headers, &hostname) {
        None => {
            let w: Vec<(String, String)> = Vec::new();
            proof {
                assert(spec_pair_views(w@) =~= spec_stage_host(headers@));
            }
            w
        },
        Some(h) => {
            let mut w: Vec<(String, String)> = Vec::new();
            w.push((String::from_str("HTTP_HOST"), h.clone()));
            match get_host_port(h.as_str()) {
                Some((nm, p)) => {
                    w.push((String::from_str("SERVER_NAME"), nm));
                    w.push((String::from_str("SERVER_PORT"), u16_to_dec_string(p)));
                },
                None => {
                    w.push((String::from_str("SERVER_NAME"), h.clone()));
                    w.push((String::from_str("SERVER_PORT"), String::from_str("80")));
                },
            }
            proof {
                assert(spec_pair_views(w@) =~= spec_stage_host(headers@));
            }
            w
        },
    }
}

fn stage_request(method: &String, query: &Option<String>, request_uri: &Option<String>) -> (w: Vec<
    (String, String),
>)
    ensures
        spec_pair_views(w@) == spec_stage_request(
            method@,
            spec_opt_view(*query),
            spec_opt_view(*request_uri),
        ),
{
    let mut w: Vec<(String, String)> = Vec::new();
    w.push((String::from_str("REQUEST_METHOD"), method.clone()));
    match query {
        Some(q) => {
            w.push((String::from_str("QUERY_STRING"), q.clone()));
        },
        None => {},
    }
    match request_uri {
        Some(u) => {
            w.push((String::from_str("REQUEST_URI"), u.clone()));
        },
        None => {},
    }
    proof {
        assert(spec_pair_views(w@) =~= spec_stage_request(
            method@,
            spec_opt_view(*query),
            spec_opt_view(*request_uri),
        ));
    }
    w
}

fn stage_paths(root: &String, path: &String, script_path: &String) -> (w: Vec<(String, String)>)
    ensures
        spec_pair_views(w@) == spec_stage_paths(root@, path@, script_path@),
{
    let mut w: Vec<(String, String)> = Vec::new();
    let root_eff = effective_root(root);
    w.push((String::from_str("PATH_INFO"), path_info(&root_eff, path)));
    w.push((String::from_str("SCRIPT_NAME"), root_eff));
    w.push((String::from_str("SCRIPT_FILENAME"), script_path.clone()));
    proof {
        assert(spec_pair_views(w@) =~= spec_stage_paths(root@, path@, script_path@));
    }
    w
}

fn stage_remote(addr: &String, port: u16) -> (w: Vec<(String, String)>)
    ensures
        spec_pair_views(w@) == spec_stage_remote(addr@, port),
{
    let mut w: Vec<(String, String)> = Vec::new();
    w.push((String::from_str("REMOTE_ADDR"), addr.clone()));
    w.push((String::from_str("REMOTE_HOST"), addr.clone()));
    w.push((String::from_str("REMOTE_PORT"), u16_to_dec_string(port)));
    proof {
        assert(spec_pair_views(w@) =~= spec_stage_remote(addr@, port));
    }
    w
}

/// The stage-six write for one header field, if any.
#[verifier::loop_isolation(false)]
fn header_write(hf: &HeaderField) -> (r: Option<(String, String)>)
    requires
        hf.wf(),
    ensures
        match r {
            Some(p) => spec_header_write(hf.name@, spec_values_views(hf.values@)) == seq![
                (p.0@, p.1@),
            ],
            None => spec_header_write(hf.name@, spec_values_views(hf.values@)) == Seq::<
                (Seq<char>, Seq<char>),
            >::empty(),
        },
{
    let un = ascii_to_upper(hf.name.as_str());
    if un.eq(&String::from_str("PROXY")) {
        return None;
    }
    let n = hf.values.len();
    if n == 0 {
        return None;
    }
    let ghost vs = spec_values_views(hf.values@);
    match &hf.values[0] {
        None => {
            proof {
                assert(vs[0] is None);
            }
            None
        },
        Some(first) => {
            proof {
                assert(vs[0] == Some(first@));
            }
            let cookie = String::from_str("COOKIE");
            let sep: &str = if un.eq(&cookie) {
                ";"
            } else {
                ","
            };
            let mut joined = first.clone();
            let mut i: usize = 1;
            while i < n
                invariant
                    1 <= i <= n,
                    n == hf.values@.len(),
                    vs == spec_values_views(hf.values@),
                    joined@ == first@ + spec_join_tail(vs.subrange(1, i as int), sep@),
                decreases n - i,
            {
                match &hf.values[i] {
                    Some(v) => {
                        joined.append(sep);
                        joined.append(v.as_str());
                    },
                    None => {},
                }
                proof {
                    assert(vs.subrange(1, i + 1).drop_last() =~= vs.subrange(1, i as int));
                    assert(vs.subrange(1, i + 1).last() == vs[i as int]);
                    assert(joined@ =~= first@ + spec_join_tail(vs.subrange(1, i + 1), sep@));
                }
                i += 1;
            }
            let name = String::from_str("HTTP_").concat(un.as_str());
            proof {
                assert(vs.subrange(1, n as int) =~= vs.drop_first());
                assert(spec_header_write(hf.name@, vs) =~= seq![(name@, joined@)]);
            }
            Some((name, joined))
        },
    }
}

#[verifier::loop_isolation(false)]
fn stage_headers(headers: &Vec<HeaderField>) -> (w: Vec<(String, String)>)
    requires
        spec_headers_wf(headers@),
    ensures
        spec_pair_views(w@) == spec_stage_headers(headers@),
{
    let mut w: Vec<(String, String)> = Vec::new();
    let n = headers.len();
    let mut i: usize = 0;
    proof {
        assert(spec_pair_views(w@) =~= spec_stage_headers(headers@.take(0)));
    }
    while i < n
        invariant
            0 <= i <= n,
            n == headers@.len(),
            spec_pair_views(w@) == spec_stage_headers(headers@.take(i as int)),
        decreases n - i,
    {
        let ghost wpre = w@;
        match header_write(&headers[i]) {
            Some(p) => {
                w.push(p);
            },
            None => {},
        }
        proof {
            assert(headers@.take(i + 1).drop_last() =~= headers@.take(i as int));
            assert(headers@.take(i + 1).last() == headers@[i as int]);
            assert(spec_pair_views(w@) =~= spec_stage_headers(headers@.take(i + 1)));
        }
        i += 1;
    }
    proof {
        assert(headers@.take(n as int) =~= headers@);
    }
    w
}

fn stage_content(headers: &Vec<HeaderField>) -> (w: Vec<(String, String)>)
    ensures
        spec_pair_views(w@) == spec_stage_content(headers@),
{
    let mut w: Vec<(String, String)> = Vec::new();
    let cl_name = String::from_str("content-length");
    match find_header_value(headers, &cl_name) {
        Some(s) => {
            match parse_u32_str(s.as_str()) {
                Some(v) => {
                    w.push((String::from_str("CONTENT_LENGTH"), crate::text::u32_to_dec_string(v)));
                },
                None => {},
            }
        },
        None => {},
    }
    let ct_name = String::from_str("content-type");
    match find_header_value(headers, &ct_name) {
        Some(s) => {
            if !s.as_str().is_empty() {
                w.push((String::from_str("CONTENT_TYPE"), s.clone()));
            }
        },
        None => {},
    }
    proof {
        assert(spec_pair_views(w@) =~= spec_stage_content(headers@));
    }
    w
}

fn stage_path_var(host_env: &Vec<(String, String)>) -> (w: Vec<(String, String)>)
    ensures
        spec_pair_views(w@) == spec_stage_path_var(spec_pair_views(host_env@)),
{
    let mut w: Vec<(String, String)> = Vec::new();
    let path_name = String::from_str("PATH");
    let fallback = "/bin:/usr/bin:/usr/ucb:/usr/bsd:/usr/local/bin";
    let value: String = match env_lookup(host_env, &path_name) {
        Some(v) => {
            if !v.as_str().is_empty() {
                v.clone()
            } else {
                String::from_str(fallback)
            }
        },
        None => String::from_str(fallback),
    };
    w.push((path_name, value));
    proof {
        assert(spec_pair_views(w@) =~= spec_stage_path_var(spec_pair_views(host_env@)));
    }
    w
}

#[verifier::loop_isolation(false)]
fn stage_inherit(names: &Vec<String>, host_env: &Vec<(String, String)>) -> (w: Vec<
    (String, String),
>)
    ensures
        spec_pair_views(w@) == spec_stage_inherit(
            spec_string_views(names@),
            spec_pair_views(host_env@),
        ),
{
    let mut w: Vec<(String, String)> = Vec::new();
    let n = names.len();
    let mut i: usize = 0;
    let ghost nv = spec_string_views(names@);
    proof {
        assert(spec_pair_views(w@) =~= spec_stage_inherit(nv.take(0), spec_pair_views(host_env@)));
    }
    while i < n
        invariant
            0 <= i <= n,
            n == names@.len(),
            nv == spec_string_views(names@),
            spec_pair_views(w@) == spec_stage_inherit(nv.take(i as int), spec_pair_views(host_env@)),
        decreases n - i,
    {
        match env_lookup(host_env, &names[i]) {
            Some(v) => {
                if !v.as_str().is_empty() {
                    w.push((names[i].clone(), v.clone()));
                }
            },
            None => {},
        }
        proof {
            assert(nv.take(i + 1).drop_last() =~= nv.take(i as int));
            assert(nv.take(i + 1).last() == names@[i as int]@);
            assert(spec_pair_views(w@) =~= spec_stage_inherit(
                nv.take(i + 1),
                spec_pair_views(host_env@),
            ));
        }
        i += 1;
    }
    proof {
        assert(nv.take(n as int) =~= nv);
    }
    w
}

#[verifier::loop_isolation(false)]
fn stage_script_env(env: &Vec<(String, String)>) -> (w: Vec<(String, String)>)
    ensures
        spec_pair_views(w@) == spec_pair_views(env@),
{
    let mut w: Vec<(String, String)> = Vec::new();
    let n = env.len();
    let mut i: usize = 0;
    while i < n
        invariant
            0 <= i <= n,
            n == env@.len(),
            spec_pair_views(w@) == spec_pair_views(env@.take(i as int)),
        decreases n - i,
    {
        let ghost wpre = w@;
        w.push((env[i].0.clone(), env[i].1.clone()));
        proof {
            let p = w@.last();
            assert(spec_pair_views(w@) =~= spec_pair_views(wpre).push((p.0@, p.1@)));
            assert(p.0@ == env@[i as int].0@ && p.1@ == env@[i as int].1@);
            assert(spec_pair_views(env@.take(i + 1)) =~= spec_pair_views(env@.take(i as int)).push(
                (env@[i as int].0@, env@[i as int].1@),
            ));
        }
        i += 1;
    }
    proof {
        assert(env@.take(n as int) =~= env@);
    }
    w
}

/// Builds the CGI environment for one request, in the fixed write order:
/// fixed metadata, host, request line, paths, peer, request headers,
/// content metadata, search path, inherited and loader variables, and the
/// configured pairs last.
pub fn build_env(
    script: &Script,
    req: &RequestInfo,
    host_env: &Vec<(String, String)>,
    loader_vars: &Vec<String>,
) -> (r: EnvMap)
    requires
        req.wf(),
    ensures
        r.wf(),
        r@ == spec_env_map(*script, *req, host_env@, loader_vars@),
{
    let mut w = stage_fixed();
    let mut w2 = stage_host(&req.headers);
    let ghost g1 = w@;
    let ghost h2 = w2@;
    w.append(&mut w2);
    proof {
        lemma_pair_views_concat(g1, h2);
    }
    let mut w3 = stage_request(&req.method, &req.query, &req.request_uri);
    let ghost g2 = w@;
    let ghost h3 = w3@;
    w.append(&mut w3);
    proof {
        lemma_pair_views_concat(g2, h3);
    }
    let mut w4 = stage_paths(&script.root, &req.path, &script.path);
    let ghost g3 = w@;
    let ghost h4 = w4@;
    w.append(&mut w4);
    proof {
        lemma_pair_views_concat(g3, h4);
    }
    let mut w5 = stage_remote(&req.remote_addr, req.remote_port);
    let ghost g4 = w@;
    let ghost h5 = w5@;
    w.append(&mut w5);
    proof {
        lemma_pair_views_concat(g4, h5);
    }
    let mut w6 = stage_headers(&req.headers);
    let ghost g5 = w@;
    let ghost h6 = w6@;
    w.append(&mut w6);
    proof {
        lemma_pair_views_concat(g5, h6);
    }
    let mut w7 = stage_content(&req.headers);
    let ghost g6 = w@;
    let ghost h7 = w7@;
    w.append(&mut w7);
    proof {
        lemma_pair_views_concat(g6, h7);
    }
    let mut w8 = stage_path_var(host_env);
    let ghost g7 = w@;
    let ghost h8 = w8@;
    w.append(&mut w8);
    proof {
        lemma_pair_views_concat(g7, h8);
    }
    let mut w9 = stage_inherit(&script.inherited_env, host_env);
    let ghost g8 = w@;
    let ghost h9 = w9@;
    w.append(&mut w9);
    proof {
        lemma_pair_views_concat(g8, h9);
    }
    let mut w10 = stage_inherit(loader_vars, host_env);
    let ghost g9 = w@;
    let ghost h10 = w10@;
    w.append(&mut w10);
    proof {
        lemma_pair_views_concat(g9, h10);
    }
    let mut w11 = stage_script_env(&script.env);
    let ghost g10 = w@;
    let ghost h11 = w11@;
    w.append(&mut w11);
    proof {
        lemma_pair_views_concat(g10, h11);
        assert(spec_pair_views(w@) == spec_env_writes(*script, *req, host_env@, loader_vars@));
    }
    EnvMap::from_writes(&w)
}

/// Whether the request must be refused before any child is spawned:
/// chunked transfer encoding has no CGI representation.
pub open spec fn spec_rejects_chunked(hs: Seq<HeaderField>) -> bool {
    spec_header_value(hs, "transfer-encoding"@) == Some("chunked"@)
}

/// Tests the transfer-encoding header for the one refused value.
pub fn rejects_chunked(headers: &Vec<HeaderField>) -> (r: bool)
    ensures
        r == spec_rejects_chunked(headers@),
{
    let te_name = String::from_str("transfer-encoding");
    match find_header_value(headers, &te_name) {
        Some(v) => v.eq(&String::from_str("chunked")),
        None => false,
    }
}

/// The refusal sent for a chunked request: status 400 and a fixed body.
pub fn chunked_rejection() -> (r: (u16, String))
    ensures
        r.0 == 400,
        r.1@ == "Chunked encoding is not supported by CGI."@,
{
    (400, String::from_str("Chunked encoding is not supported by CGI."))
}

/// The refusal sent when the child cannot be spawned: status 500 and a body
/// naming the executable and the system's words.
pub fn spawn_error_response(path: &String, err: &String) -> (r: (u16, String))
    ensures
        r.0 == 500,
        r.1@ == "Cannot run cgi executable "@ + path@ + " with error: "@ + err@,
{
    let msg = String::from_str("Cannot run cgi executable ").concat(path.as_str()).concat(
        " with error: ",
    ).concat(err.as_str());
    (500, msg)
}

/// The refusal sent when a header line cannot be read from the child.
pub fn header_read_error_response(err: &String) -> (r: (u16, String))
    ensures
        r.0 == 500,
        r.1@ == "Cannot read header with error: "@ + err@,
{
    let msg = String::from_str("Cannot read header with error: ").concat(err.as_str());
    (500, msg)
}

} // verus!
