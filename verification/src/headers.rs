//! The parser for the child's header block: CRLF (or bare LF) lines up to a
//! blank line, a `Status` pseudo-header, and the response defaulting rules.

use vstd::prelude::*;
use crate::text::{
    bytes_eq, find_byte, parse_u16_bytes, spec_find_byte, spec_parse_dec_bytes, spec_trim,
    subrange_vec, trim_bytes,
};

verus! {

/// A header name the HTTP codec accepts: one to 65535 token characters.
pub open spec fn spec_header_name_ok(k: Seq<u8>) -> bool {
    1 <= k.len() <= 65535 && forall|i: int| 0 <= i < k.len() ==> spec_tchar(#[trigger] k[i])
}

/// The token characters of a header name: the fifteen marks, digits and
/// letters of either case.
pub open spec fn spec_tchar(b: u8) -> bool {
    ||| b == 33
    ||| b == 35
    ||| b == 36
    ||| b == 37
    ||| b == 38
    ||| b == 39
    ||| b == 42
    ||| b == 43
    ||| b == 45
    ||| b == 46
    ||| b == 94
    ||| b == 95
    ||| b == 96
    ||| b == 124
    ||| b == 126
    ||| (48 <= b && b <= 57)
    ||| (97 <= b && b <= 122)
    ||| (65 <= b && b <= 90)
}

/// A header value the HTTP codec accepts: tab or any byte from 32 up,
/// except delete.
pub open spec fn spec_header_value_ok(v: Seq<u8>) -> bool {
    forall|i: int|
        0 <= i < v.len() ==> ((#[trigger] v[i] >= 32 && v[i] != 127) || v[i] == 9)
}

/// Relies on HeaderName::from_bytes of the HTTP codec: a name is accepted
/// iff it is one to 65535 token characters.
#[verifier::external_body]
fn header_name_ok(k: &[u8]) -> (r: bool)
    ensures
        r == spec_header_name_ok(k@),
{
    hyper::header::HeaderName::from_bytes(k).is_ok()
}

/// Relies on HeaderValue::from_bytes of the HTTP codec: a value is accepted
/// iff every byte is tab, or 32 and up except delete.
#[verifier::external_body]
fn header_value_ok(v: &[u8]) -> (r: bool)
    ensures
        r == spec_header_value_ok(v@),
{
    hyper::header::HeaderValue::from_bytes(v).is_ok()
}

/// Relies on StatusCode::from_u16 of the HTTP codec: the codes 100 through
/// 999 are the representable ones.
#[verifier::external_body]
fn status_code_ok(c: u16) -> (r: bool)
    ensures
        r == (100 <= c <= 999),
{
    hyper::StatusCode::from_u16(c).is_ok()
}

/// The bytes of "Status".
pub open spec fn spec_status_key() -> Seq<u8> {
    seq![83u8, 116u8, 97u8, 116u8, 117u8, 115u8]
}

/// The bytes of "Location".
pub open spec fn spec_location_key() -> Seq<u8> {
    seq![76u8, 111u8, 99u8, 97u8, 116u8, 105u8, 111u8, 110u8]
}

/// The bytes of "Content-Type".
pub open spec fn spec_content_type_key() -> Seq<u8> {
    seq![67u8, 111u8, 110u8, 116u8, 101u8, 110u8, 116u8, 45u8, 84u8, 121u8, 112u8, 101u8]
}

fn is_status_key(k: &[u8]) -> (r: bool)
    ensures
        r == (k@ == spec_status_key()),
{
    let key: [u8; 6] = [83, 116, 97, 116, 117, 115];
    proof {
        assert(key@ =~= spec_status_key());
    }
    bytes_eq(k, key.as_slice())
}

fn is_location_key(k: &[u8]) -> (r: bool)
    ensures
        r == (k@ == spec_location_key()),
{
    let key: [u8; 8] = [76, 111, 99, 97, 116, 105, 111, 110];
    proof {
        assert(key@ =~= spec_location_key());
    }
    bytes_eq(k, key.as_slice())
}

fn is_content_type_key(k: &[u8]) -> (r: bool)
    ensures
        r == (k@ == spec_content_type_key()),
{
    let key: [u8; 12] = [67, 111, 110, 116, 101, 110, 116, 45, 84, 121, 112, 101];
    proof {
        assert(key@ =~= spec_content_type_key());
    }
    bytes_eq(k, key.as_slice())
}

/// The in-progress result of reading the header block.
#[verifier::ext_equal]
pub struct HeaderAccView {
    /// The accepted header lines, in order.
    pub headers: Seq<(Seq<u8>, Seq<u8>)>,
    /// The parsed Status code, if a valid one was seen.
    pub status: Option<u16>,
    /// Whether any line at all was read.
    pub has_header: bool,
    /// Whether a non-empty Location was seen.
    pub has_location: bool,
    /// Whether a non-empty Content-Type was seen.
    pub has_content_type: bool,
}

/// How one Status value changes the recorded code: the part before the
/// first space must parse as a decimal number with a representable value;
/// anything else leaves the old code.
pub open spec fn spec_status_update(cur: Option<u16>, val: Seq<u8>) -> Option<u16> {
    let sv = match spec_find_byte(val, 32) {
        Some(q) => val.subrange(0, q),
        None => val,
    };
    match spec_parse_dec_bytes(sv, u16::MAX as nat) {
        Some(c) => if 100 <= c && c <= 999 {
            Some(c as u16)
        } else {
            cur
        },
        None => cur,
    }
}

/// How one line changes the accumulator: trim; a blank line changes
/// nothing more; without a colon the line is skipped; otherwise the two
/// trimmed sides are a Status update, or a header accepted when both sides
/// are valid, and the Location and Content-Type flags follow the key.
pub open spec fn spec_apply_line(v: HeaderAccView, raw: Seq<u8>) -> HeaderAccView {
    let line = spec_trim(raw);
    let v1 = HeaderAccView {
        headers: v.headers,
        status: v.status,
        has_header: true,
        has_location: v.has_location,
        has_content_type: v.has_content_type,
    };
    if line.len() == 0 {
        v1
    } else {
        match spec_find_byte(line, 58) {
            None => v1,
            Some(p) => {
                let k = spec_trim(line.subrange(0, p));
                let val = spec_trim(line.subrange(p + 1, line.len() as int));
                let v2 = if k == spec_status_key() {
                    HeaderAccView { status: spec_status_update(v1.status, val), ..v1 }
                } else if spec_header_name_ok(k) && spec_header_value_ok(val) {
                    HeaderAccView { headers: v1.headers.push((k, val)), ..v1 }
                } else {
                    v1
                };
                let v3 = if k == spec_location_key() && val.len() > 0 {
                    HeaderAccView { has_location: true, ..v2 }
                } else {
                    v2
                };
                if k == spec_content_type_key() && val.len() > 0 {
                    HeaderAccView { has_content_type: true, ..v3 }
                } else {
                    v3
                }
            },
        }
    }
}

/// What is wrong when the block cannot stand as a response.
#[derive(Debug, PartialEq, Eq, Structural)]
pub enum HeaderDefect {
    /// No line at all came before end of stream.
    NoHeader,
    /// Neither a Content-Type nor a Status was given.
    MissingContentType,
}

/// The status the response gets after the block: no line at all is a
/// defect; a Location without Status means 302; otherwise a missing
/// Content-Type without Status is a defect, and a missing Status is 200.
pub open spec fn spec_finish(v: HeaderAccView) -> Result<u16, HeaderDefect> {
    if !v.has_header {
        Err(HeaderDefect::NoHeader)
    } else {
        let st = if v.status is None && v.has_location {
            Some(302u16)
        } else {
            v.status
        };
        if st is None && !v.has_content_type {
            Err(HeaderDefect::MissingContentType)
        } else {
            match st {
                Some(c) => Ok(c),
                None => Ok(200),
            }
        }
    }
}

pub open spec fn spec_byte_pair_views(s: Seq<(Vec<u8>, Vec<u8>)>) -> Seq<(Seq<u8>, Seq<u8>)> {
    s.map_values(|p: (Vec<u8>, Vec<u8>)| (p.0@, p.1@))
}

/// Accumulates the child's header block line by line.
pub struct HeaderAccumulator {
    headers: Vec<(Vec<u8>, Vec<u8>)>,
    status: Option<u16>,
    has_header: bool,
    has_location: bool,
    has_content_type: bool,
}

impl View for HeaderAccumulator {
    type V = HeaderAccView;

    closed spec fn view(&self) -> HeaderAccView {
        HeaderAccView {
            headers: spec_byte_pair_views(self.headers@),
            status: self.status,
            has_header: self.has_header,
            has_location: self.has_location,
            has_content_type: self.has_content_type,
        }
    }
}

impl HeaderAccumulator {
    /// An accumulator that has read nothing.
    pub fn new() -> (r: HeaderAccumulator)
        ensures
            r@ == (HeaderAccView {
                headers: Seq::empty(),
                status: None,
                has_header: false,
                has_location: false,
                has_content_type: false,
            }),
    {
        let r = HeaderAccumulator {
            headers: Vec::new(),
            status: None,
            has_header: false,
            has_location: false,
            has_content_type: false,
        };
        proof {
            assert(r@ =~~= (HeaderAccView {
                headers: Seq::empty(),
                status: None,
                has_header: false,
                has_location: false,
                has_content_type: false,
            }));
        }
        r
    }

    /// Reads one line, without its terminator.
    pub fn process_line(&mut self, raw: &[u8])
        ensures
            final(self)@ == spec_apply_line(old(self)@, raw@),
    {
        let t = trim_bytes(raw);
        self.has_header = true;
        if t.len() == 0 {
            proof {
                assert(self@ =~~= spec_apply_line(old(self)@, raw@));
            }
            return ;
        }
        match find_byte(t.as_slice(), 58) {
            None => {
                proof {
                    assert(self@ =~~= spec_apply_line(old(self)@, raw@));
                }
            },
            Some(p) => {
                let left = subrange_vec(t.as_slice(), 0, p);
                let right = subrange_vec(t.as_slice(), p + 1, t.len());
                let k = trim_bytes(left.as_slice());
                let val = trim_bytes(right.as_slice());
                if is_status_key(k.as_slice()) {
                    let sv_end: usize = match find_byte(val.as_slice(), 32) {
                        Some(q) => q,
                        None => val.len(),
                    };
                    let sv = subrange_vec(val.as_slice(), 0, sv_end);
                    proof {
                        if spec_find_byte(val@, 32) is None {
                            assert(val@.subrange(0, val@.len() as int) =~= val@);
                        }
                    }
                    match parse_u16_bytes(sv.as_slice()) {
                        Some(c) => {
                            if status_code_ok(c) {
                                self.status = Some(c);
                            }
                        },
                        None => {},
                    }
                } else if header_name_ok(k.as_slice()) && header_value_ok(val.as_slice()) {
                    let is_loc = is_location_key(k.as_slice()) && val.len() > 0;
                    let is_ct = is_content_type_key(k.as_slice()) && val.len() > 0;
                    let ghost hpre = self.headers@;
                    self.headers.push((k, val));
                    if is_loc {
                        self.has_location = true;
                    }
                    if is_ct {
                        self.has_content_type = true;
                    }
                    proof {
                        assert(spec_byte_pair_views(self.headers@) =~= spec_byte_pair_views(
                            hpre,
                        ).push((self.headers@.last().0@, self.headers@.last().1@)));
                    }
                } else {
                    if is_location_key(k.as_slice()) && val.len() > 0 {
                        self.has_location = true;
                    }
                    if is_content_type_key(k.as_slice()) && val.len() > 0 {
                        self.has_content_type = true;
                    }
                }
                proof {
                    assert(self@ =~~= spec_apply_line(old(self)@, raw@));
                }
            },
        }
    }

    /// The accepted headers, in the order the child sent them.
    pub fn headers(&self) -> (r: &Vec<(Vec<u8>, Vec<u8>)>)
        ensures
            spec_byte_pair_views(r@) == self@.headers,
    {
        &self.headers
    }

    /// The recorded Status code, if any.
    pub fn status(&self) -> (r: Option<u16>)
        ensures
            r == self@.status,
    {
        self.status
    }

    /// Settles the response status, or names the defect: 500 with
    /// "No header read" when nothing was read, 500 with the missing
    /// Content-Type message when neither a type nor a status was given.
    pub fn finish(&self) -> (r: Result<u16, (u16, String)>)
        ensures
            match spec_finish(self@) {
                Ok(c) => r == Ok::<u16, (u16, String)>(c),
                Err(d) => r is Err && r->Err_0.0 == 500 && r->Err_0.1@ == (
                if d == HeaderDefect::NoHeader {
                    "No header read"@
                } else {
                    "Missing required Content-Type header"@
                }),
            },
    {
        if !self.has_header {
            return Err((500, String::from_str("No header read")));
        }
        let st: Option<u16> = if self.status.is_none() && self.has_location {
            Some(302)
        } else {
            self.status
        };
        match st {
            Some(c) => Ok(c),
            None => {
                if !self.has_content_type {
                    Err((500, String::from_str("Missing required Content-Type header")))
                } else {
                    Ok(200)
                }
            },
        }
    }
}

/// The outcome of scanning a buffer: the accumulator after every complete
/// line read, how many bytes those lines took, and whether the blank line
/// that ends the block was reached.
pub struct ScanStep {
    pub acc: HeaderAccView,
    pub used: int,
    pub done: bool,
}

/// Reads complete lines off the front of `s` until the blank line or until
/// no full line is left.
pub open spec fn spec_scan_lines(v: HeaderAccView, s: Seq<u8>) -> ScanStep
    decreases s.len(),
{
    match spec_find_byte(s, 10) {
        None => ScanStep { acc: v, used: 0, done: false },
        Some(p) => {
            if 0 <= p < s.len() {
                let raw = s.subrange(0, p);
                let v1 = spec_apply_line(v, raw);
                if spec_trim(raw).len() == 0 {
                    ScanStep { acc: v1, used: p + 1, done: true }
                } else {
                    let r = spec_scan_lines(v1, s.skip(p + 1));
                    ScanStep { acc: r.acc, used: p + 1 + r.used, done: r.done }
                }
            } else {
                ScanStep { acc: v, used: 0, done: false }
            }
        },
    }
}

/// Splits the child's output into the header block and the body: bytes are
/// pushed in, complete lines are fed to the accumulator, and once the blank
/// line is seen the rest stays buffered, untouched and in order.
pub struct HeaderScanner {
    buf: Vec<u8>,
    done: bool,
    consumed: Ghost<Seq<u8>>,
    pushed: Ghost<Seq<u8>>,
}

impl HeaderScanner {
    /// The bytes taken as header lines, terminators included.
    pub closed spec fn consumed(&self) -> Seq<u8> {
        self.consumed@
    }

    /// The bytes not yet taken.
    pub closed spec fn buffered(&self) -> Seq<u8> {
        self.buf@
    }

    /// Every byte this scanner was given, in order.
    pub closed spec fn pushed(&self) -> Seq<u8> {
        self.pushed@
    }

    /// Whether the blank line that ends the header block was reached.
    pub closed spec fn finished(&self) -> bool {
        self.done
    }

    /// The partition invariant: what came in is the consumed header block
    /// followed by the untouched remainder.
    pub closed spec fn wf(&self) -> bool {
        self.pushed@ == self.consumed@ + self.buf@
    }

    /// A scanner that has seen nothing.
    pub fn new() -> (r: HeaderScanner)
        ensures
            r.wf(),
            !r.finished(),
            r.pushed() == Seq::<u8>::empty(),
            r.consumed() == Seq::<u8>::empty(),
            r.buffered() == Seq::<u8>::empty(),
    {
        let r = HeaderScanner {
            buf: Vec::new(),
            done: false,
            consumed: Ghost(Seq::empty()),
            pushed: Ghost(Seq::empty()),
        };
        proof {
            assert(r.pushed@ =~= r.consumed@ + r.buf@);
        }
        r
    }

    /// Hands the scanner the next bytes read from the child.
    #[verifier::loop_isolation(false)]
    pub fn push_chunk(&mut self, chunk: &[u8])
        requires
            old(self).wf(),
            !old(self).finished(),
        ensures
            final(self).wf(),
            !final(self).finished(),
            final(self).pushed() == old(self).pushed() + chunk@,
            final(self).consumed() == old(self).consumed(),
            final(self).buffered() == old(self).buffered() + chunk@,
    {
        let n = chunk.len();
        let mut i: usize = 0;
        while i < n
            invariant
                0 <= i <= n,
                n == chunk@.len(),
                self.buf@ == old(self).buf@ + chunk@.take(i as int),
                self.done == old(self).done,
                self.consumed == old(self).consumed,
                self.pushed == old(self).pushed,
            decreases n - i,
        {
            self.buf.push(chunk[i]);
            proof {
                assert(self.buf@ =~= old(self).buf@ + chunk@.take(i + 1));
            }
            i += 1;
        }
        proof {
            assert(chunk@.take(n as int) =~= chunk@);
        }
        self.pushed = Ghost(self.pushed@ + chunk@);
        proof {
            assert(self.pushed@ =~= self.consumed@ + self.buf@);
        }
    }

    /// Feeds every complete buffered line to the accumulator, stopping at
    /// the blank line; says whether the block is complete.
    #[verifier::loop_isolation(false)]
    #[verifier::rlimit(50)]
    #[verifier::spinoff_prover]
    pub fn scan(&mut self, acc: &mut HeaderAccumulator) -> (done: bool)
        requires
            old(self).wf(),
            !old(self).finished(),
        ensures
            final(self).wf(),
            final(self).pushed() == old(self).pushed(),
            ({
                let r = spec_scan_lines(old(acc)@, old(self).buffered());
                &&& 0 <= r.used <= old(self).buffered().len()
                &&& final(acc)@ == r.acc
                &&& final(self).buffered() == old(self).buffered().skip(r.used)
                &&& final(self).consumed() == old(self).consumed() + old(self).buffered().take(
                    r.used,
                )
                &&& final(self).finished() == r.done
                &&& done == r.done
            }),
    {
        let ghost acc0 = acc@;
        let ghost buf0 = self.buf@;
        let ghost consumed0 = self.consumed@;
        proof {
            assert(buf0.skip(0) =~= buf0);
            assert(buf0.take(0) =~= Seq::<u8>::empty());
            assert(consumed0 + Seq::<u8>::empty() =~= consumed0);
        }
        loop
            invariant
                self.wf(),
                !self.done,
                self.pushed@ == old(self).pushed@,
                0 <= buf0.len() - self.buf@.len(),
                self.buf@ == buf0.skip(buf0.len() - self.buf@.len()),
                self.consumed@ == consumed0 + buf0.take(buf0.len() - self.buf@.len()),
                spec_scan_lines(acc0, buf0) == (ScanStep {
                    acc: spec_scan_lines(acc@, self.buf@).acc,
                    used: (buf0.len() - self.buf@.len()) + spec_scan_lines(acc@, self.buf@).used,
                    done: spec_scan_lines(acc@, self.buf@).done,
                }),
            decreases self.buf@.len(),
        {
            let ghost d = buf0.len() - self.buf@.len();
            let ghost bufpre = self.buf@;
            let ghost accpre = acc@;
            match find_byte(self.buf.as_slice(), 10) {
                None => {
                    proof {
                        assert(spec_scan_lines(accpre, bufpre) == ScanStep {
                            acc: accpre,
                            used: 0,
                            done: false,
                        });
                        assert(bufpre.take(0) =~= Seq::<u8>::empty());
                        assert(bufpre.skip(0) =~= bufpre);
                    }
                    return false;
                },
                Some(p) => {
                    let blen = self.buf.len();
                    proof {
                        assert(p < blen);
                    }
                    let mut tail = self.buf.split_off(p + 1);
                    let _lf = self.buf.pop();
                    let mut line: Vec<u8> = Vec::new();
                    line.append(&mut self.buf);
                    self.buf.append(&mut tail);
                    proof {
                        assert(line@ =~= bufpre.subrange(0, p as int));
                        assert(self.buf@ =~= bufpre.skip(p + 1));
                    }
                    self.consumed = Ghost(self.consumed@ + line@.push(10u8));
                    acc.process_line(line.as_slice());
                    let blank = trim_bytes(line.as_slice()).len() == 0;
                    proof {
                        assert(bufpre.take(p + 1) =~= line@.push(10u8));
                        assert(buf0.skip(d).skip(p + 1) =~= buf0.skip(d + p + 1));
                        assert(buf0.take(d) + buf0.skip(d).take(p + 1) =~= buf0.take(d + p + 1));
                        assert(consumed0 + buf0.take(d) + bufpre.take(p + 1) =~= consumed0
                            + buf0.take(d + p + 1));
                    }
                    if blank {
                        self.done = true;
                        proof {
                            assert(self.pushed@ =~= self.consumed@ + self.buf@);
                        }
                        return true;
                    }
                    proof {
                        assert(self.pushed@ =~= self.consumed@ + self.buf@);
                    }
                },
            }
        }
    }

    /// Treats what is left as the final, unterminated line; end of stream
    /// before the blank line accepts whatever was read.
    pub fn finish_eof(&mut self, acc: &mut HeaderAccumulator)
        requires
            old(self).wf(),
            !old(self).finished(),
        ensures
            final(self).wf(),
            final(self).pushed() == old(self).pushed(),
            final(self).finished(),
            final(self).buffered().len() == 0,
            final(self).consumed() == old(self).consumed() + old(self).buffered(),
            final(acc)@ == (if old(self).buffered().len() > 0 {
                spec_apply_line(old(acc)@, old(self).buffered())
            } else {
                old(acc)@
            }),
    {
        if self.buf.len() > 0 {
            acc.process_line(self.buf.as_slice());
            self.consumed = Ghost(self.consumed@ + self.buf@);
            self.buf.clear();
        } else {
            proof {
                assert(self.consumed@ + self.buf@ =~= self.consumed@);
            }
        }
        self.done = true;
        proof {
            assert(self.pushed@ =~= self.consumed@ + self.buf@);
        }
    }

    /// Takes the bytes after the header block: the body's first bytes,
    /// exactly as the child wrote them.
    pub fn into_remainder(self) -> (r: Vec<u8>)
        ensures
            r@ == self.buffered(),
    {
        self.buf
    }
}

/// Prefix preservation: everything the scanner was given is the consumed
/// header block followed, unchanged and in order, by the buffered body.
pub proof fn lemma_scanner_partition(s: &HeaderScanner)
    requires
        s.wf(),
    ensures
        s.pushed() == s.consumed() + s.buffered(),
{
}

} // verus!
