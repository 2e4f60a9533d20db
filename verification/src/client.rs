//! The helper side that runs an executable as a CGI client of a parent
//! web server: the pure parts, a request URI rebuilt from the CGI
//! variables and the serialized head of the reply.

use vstd::prelude::*;
use crate::text::{spec_dec_digits, u16_to_dec_string};
use crate::env_map::spec_pair_views;

verus! {

/// What the gateway knows of the two ends of the connection.
pub struct ConnInfo {
    /// The peer's address, as text.
    pub remote_addr: String,
    /// The peer's port.
    pub remote_port: u16,
    /// The local port.
    pub local_port: u16,
    /// The local server name.
    pub local_addr: String,
}

/// The request URI rebuilt from SCRIPT_NAME, PATH_INFO and QUERY_STRING
/// when no REQUEST_URI was handed down; absent variables arrive as "".
pub fn get_req_uri(script_name: &String, path_info: &String, query: Option<&String>) -> (r: String)
    ensures
        r@ == script_name@ + path_info@ + (match query {
            Some(q) => "?"@ + q@,
            None => Seq::<char>::empty(),
        }),
{
    let mut r = script_name.clone();
    r.append(path_info.as_str());
    match query {
        Some(q) => {
            r.append("?");
            r.append(q.as_str());
            proof {
                assert(r@ =~= script_name@ + path_info@ + ("?"@ + q@));
            }
        },
        None => {
            proof {
                assert(r@ =~= script_name@ + path_info@ + Seq::<char>::empty());
            }
        },
    }
    r
}

/// The serialized header lines: each name, a colon and a space, the
/// value, and CRLF.
pub open spec fn spec_head_lines(hs: Seq<(Seq<char>, Seq<char>)>) -> Seq<char>
    decreases hs.len(),
{
    if hs.len() == 0 {
        Seq::empty()
    } else {
        spec_head_lines(hs.drop_last()) + hs.last().0 + ": "@ + hs.last().1 + "\r\n"@
    }
}

/// The whole head the client writes before the body: the Status line with
/// the given reason, every header, and the empty line.
pub open spec fn spec_response_head(
    status: u16,
    reason: Seq<char>,
    hs: Seq<(Seq<char>, Seq<char>)>,
) -> Seq<char> {
    "Status: "@ + spec_dec_digits(status as nat) + " "@ + reason + "\r\n"@ + spec_head_lines(hs)
        + "\r\n"@
}

/// Serializes the reply head for the parent server.
#[verifier::loop_isolation(false)]
pub fn response_head(status: u16, reason: &String, headers: &Vec<(String, String)>) -> (r: String)
    ensures
        r@ == spec_response_head(status, reason@, spec_pair_views(headers@)),
{
    let mut r = String::from_str("Status: ");
    let code = u16_to_dec_string(status);
    r.append(code.as_str());
    r.append(" ");
    r.append(reason.as_str());
    r.append("\r\n");
    let ghost hv = spec_pair_views(headers@);
    let ghost first = r@;
    proof {
        assert(spec_head_lines(hv.take(0)) =~= Seq::<char>::empty());
        assert(first + Seq::<char>::empty() =~= first);
    }
    let n = headers.len();
    let mut i: usize = 0;
    while i < n
        invariant
            0 <= i <= n,
            n == headers@.len(),
            hv == spec_pair_views(headers@),
            first == "Status: "@ + spec_dec_digits(status as nat) + " "@ + reason@ + "\r\n"@,
            r@ == first + spec_head_lines(hv.take(i as int)),
        decreases n - i,
    {
        r.append(headers[i].0.as_str());
        r.append(": ");
        r.append(headers[i].1.as_str());
        r.append("\r\n");
        proof {
            assert(hv.take(i + 1).drop_last() =~= hv.take(i as int));
            assert(hv.take(i + 1).last() == (headers@[i as int].0@, headers@[i as int].1@));
            assert(r@ =~= first + spec_head_lines(hv.take(i + 1)));
        }
        i += 1;
    }
    r.append("\r\n");
    proof {
        assert(hv.take(n as int) =~= hv);
        assert(r@ =~= spec_response_head(status, reason@, hv));
    }
    r
}

} // verus!
