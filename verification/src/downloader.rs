//! The feed refresher's logic: line-oriented parsing of a fetched feed body
//! and the decision taken on each fetch outcome.
//!
//! The process around the library performs the HTTP transfer and the
//! schedule; it hands every outcome to [`Downloader::refresh`] as plain
//! values and installs the returned addresses into the membership store.

use vstd::prelude::*;
use vstd::slice::slice_index_get;

use crate::addr::{parse_quad, quad_of};
use crate::checker::BlocklistCheckerStore;

verus! {

/// ASCII whitespace, as a line is split into tokens.
pub open spec fn is_space(c: u8) -> bool {
    c == 0x20 || c == 0x09 || c == 0x0a || c == 0x0d || c == 0x0b || c == 0x0c
}

/// The index of the first non-space at or after `i`, or the length of `s`.
pub open spec fn space_end(s: Seq<u8>, i: int) -> int
    decreases s.len() - i when 0 <= i <= s.len()
{
    if i < s.len() && is_space(s[i]) {
        space_end(s, i + 1)
    } else {
        i
    }
}

/// The index of the first space at or after `i`, or the length of `s`.
pub open spec fn token_end(s: Seq<u8>, i: int) -> int
    decreases s.len() - i when 0 <= i <= s.len()
{
    if i < s.len() && !is_space(s[i]) {
        token_end(s, i + 1)
    } else {
        i
    }
}

/// The index of the first line feed at or after `i`, or the length of `s`.
pub open spec fn line_break(s: Seq<u8>, i: int) -> int
    decreases s.len() - i when 0 <= i <= s.len()
{
    if i < s.len() && s[i] != 0x0a {
        line_break(s, i + 1)
    } else {
        i
    }
}

/// The address one feed line contributes, if any: a line beginning with
/// `#` is a comment, a line with no token is blank, and otherwise the first
/// whitespace-delimited token counts exactly when it is a dotted quad.
pub open spec fn line_addr(line: Seq<u8>) -> Option<u32> {
    if line.len() > 0 && line[0] == 0x23 {
        None
    } else {
        let a = space_end(line, 0);
        if a == line.len() {
            None
        } else {
            quad_of(line.subrange(a, token_end(line, a)))
        }
    }
}

/// `line_break` stays between `i` and the length of `s`, and marks the
/// first line feed of `s[i..]`.
proof fn lemma_line_break_bounds(s: Seq<u8>, i: int)
    requires
        0 <= i <= s.len(),
    ensures
        i <= line_break(s, i) <= s.len(),
    decreases s.len() - i,
{
    if i < s.len() && s[i] != 0x0a {
        lemma_line_break_bounds(s, i + 1);
    }
}

/// The addresses contributed by the feed lines at and after `i`, in order
/// of appearance; lines are separated by line feeds.
pub open spec fn body_addrs_from(s: Seq<u8>, i: int) -> Seq<u32>
    decreases s.len() - i when 0 <= i <= s.len() via body_addrs_from_dec
{
    if i >= s.len() {
        Seq::empty()
    } else {
        let e = line_break(s, i);
        let head = match line_addr(s.subrange(i, e)) {
            Some(a) => seq![a],
            None => Seq::empty(),
        };
        if e < s.len() {
            head + body_addrs_from(s, e + 1)
        } else {
            head
        }
    }
}

#[via_fn]
proof fn body_addrs_from_dec(s: Seq<u8>, i: int) {
    if 0 <= i < s.len() {
        lemma_line_break_bounds(s, i);
    }
}

/// The addresses a whole feed body parses to, in order of appearance.
pub open spec fn body_addrs(s: Seq<u8>) -> Seq<u32> {
    body_addrs_from(s, 0)
}

/// The index of the first non-space at or after `i`, computed.
fn scan_spaces(s: &[u8], i: usize) -> (r: usize)
    requires
        i <= s@.len(),
    ensures
        r == space_end(s@, i as int),
        i <= r <= s@.len(),
{
    let mut j = i;
    while j < s.len() && space_byte(*slice_index_get(s, j))
        invariant
            i <= j <= s@.len(),
            space_end(s@, i as int) == space_end(s@, j as int),
        decreases s@.len() - j,
    {
        j = j + 1;
    }
    j
}

/// Whether one byte is ASCII whitespace.
fn space_byte(c: u8) -> (r: bool)
    ensures
        r == is_space(c),
{
    c == 0x20 || c == 0x09 || c == 0x0a || c == 0x0d || c == 0x0b || c == 0x0c
}

/// The index of the first space at or after `i`, computed.
fn scan_token(s: &[u8], i: usize) -> (r: usize)
    requires
        i <= s@.len(),
    ensures
        r == token_end(s@, i as int),
        i <= r <= s@.len(),
{
    let mut j = i;
    while j < s.len() && !space_byte(*slice_index_get(s, j))
        invariant
            i <= j <= s@.len(),
            token_end(s@, i as int) == token_end(s@, j as int),
        decreases s@.len() - j,
    {
        j = j + 1;
    }
    j
}

/// The index of the first line feed at or after `i`, computed.
fn scan_line_break(s: &[u8], i: usize) -> (r: usize)
    requires
        i <= s@.len(),
    ensures
        r == line_break(s@, i as int),
        i <= r <= s@.len(),
{
    let mut j = i;
    while j < s.len() && *slice_index_get(s, j) != 0x0a
        invariant
            i <= j <= s@.len(),
            line_break(s@, i as int) == line_break(s@, j as int),
        decreases s@.len() - j,
    {
        j = j + 1;
    }
    j
}

/// Parses one feed line: the address it contributes, if any.
pub fn parse_line(line: &[u8]) -> (r: Option<u32>)
    ensures
        r == line_addr(line@),
{
    if line.len() > 0 && *slice_index_get(line, 0) == 0x23 {
        return None;
    }
    let a = scan_spaces(line, 0);
    if a == line.len() {
        return None;
    }
    let t = scan_token(line, a);
    let token = vstd::slice::slice_subrange(line, a, t);
    parse_quad(token)
}

/// Parses a whole feed body line by line, collecting every address the
/// lines contribute, in order; comments, blank lines and malformed tokens
/// are dropped without failing the parse.
pub fn parse(body: &[u8]) -> (r: Vec<u32>)
    ensures
        r@ == body_addrs(body@),
{
    let mut r: Vec<u32> = Vec::new();
    let mut i: usize = 0;
    proof {
        assert(r@ + body_addrs_from(body@, 0) =~= body_addrs_from(body@, 0));
    }
    while i < body.len()
        invariant
            i <= body@.len(),
            body_addrs(body@) == r@ + body_addrs_from(body@, i as int),
        decreases body@.len() - i,
    {
        let ghost prev = r@;
        let e = scan_line_break(body, i);
        let line = vstd::slice::slice_subrange(body, i, e);
        match parse_line(line) {
            Some(a) => {
                r.push(a);
                proof {
                    assert(prev.push(a) =~= prev + seq![a]);
                }
            },
            None => {
                proof {
                    assert(prev =~= prev + Seq::<u32>::empty());
                }
            },
        }
        proof {
            if e < body@.len() {
                assert(prev + (line_addr_head(body@, i as int) + body_addrs_from(
                    body@,
                    e + 1,
                )) =~= (prev + line_addr_head(body@, i as int)) + body_addrs_from(body@, e + 1));
            }
        }
        i = if e < body.len() {
            e + 1
        } else {
            e
        };
    }
    proof {
        assert(r@ + Seq::<u32>::empty() =~= r@);
    }
    r
}

/// The one-element or empty sequence a single line contributes.
pub open spec fn line_addr_head(s: Seq<u8>, i: int) -> Seq<u32> {
    match line_addr(s.subrange(i, line_break(s, i))) {
        Some(a) => seq![a],
        None => Seq::empty(),
    }
}

/// What one fetch of the feed produced, as the transport observed it.
pub enum FetchOutcome {
    /// The request itself failed: connection error or timeout.
    Failed,
    /// A response arrived, with its status code, the validator header if
    /// the response carried one, and the response body.
    Received { status: u16, e_tag: Option<String>, body: Vec<u8> },
}

/// The statuses that count as success.
pub open spec fn is_success(status: u16) -> bool {
    200 <= status < 300
}

/// The "not modified" status: the feed is unchanged since the validator
/// the request carried was captured.
pub const NOT_MODIFIED: u16 = 304;

/// The refresher's state between fetches: the last captured ETag token,
/// sent with each request as a conditional-request validator.
pub struct Downloader {
    /// Empty at startup; overwritten only by a success response that
    /// carries a non-empty validator.
    pub e_tag: String,
}

impl Downloader {
    /// A refresher that has not yet captured a validator.
    pub fn new() -> (r: Self)
        ensures
            r.e_tag@ == Seq::<char>::empty(),
    {
        Downloader { e_tag: String::new() }
    }

    /// Decides one refresh cycle from a fetch outcome. On success the
    /// captured validator is updated from a non-empty header (an absent or
    /// empty header leaves it untouched) and the parsed body is returned
    /// for installation into the store, even when it is empty. Every other
    /// outcome, the "not modified" status among them, changes nothing and
    /// installs nothing.
    pub fn refresh(&mut self, outcome: FetchOutcome) -> (action: Option<Vec<u32>>)
        ensures
            match outcome {
                FetchOutcome::Failed => final(self).e_tag@ == old(self).e_tag@ && action is None,
                FetchOutcome::Received { status, e_tag, body } => {
                    if is_success(status) {
                        &&& match e_tag {
                            Some(t) => if t@.len() > 0 {
                                final(self).e_tag@ == t@
                            } else {
                                final(self).e_tag@ == old(self).e_tag@
                            },
                            None => final(self).e_tag@ == old(self).e_tag@,
                        }
                        &&& action matches Some(v) && v@ == body_addrs(body@)
                    } else {
                        final(self).e_tag@ == old(self).e_tag@ && action is None
                    }
                },
            },
    {
        match outcome {
            FetchOutcome::Failed => None,
            FetchOutcome::Received { status, e_tag, body } => {
                if 200 <= status && status < 300 {
                    match e_tag {
                        Some(t) => {
                            if !t.as_str().is_empty() {
                                self.e_tag = t;
                            }
                        },
                        None => {},
                    }
                    Some(parse(body.as_slice()))
                } else {
                    None
                }
            },
        }
    }
}

/// An empty successful feed clears the store: when a fetched body parses
/// to no addresses and the store is replaced wholesale with that parsed
/// result, no address — previously present or not — is contained any more.
pub proof fn lemma_empty_feed_clears(store: BlocklistCheckerStore, body: Seq<u8>)
    requires
        body_addrs(body).len() == 0,
        store@ == body_addrs(body).to_set(),
    ensures
        forall|a: u32| !store@.contains(a),
{
    assert forall|a: u32| !store@.contains(a) by {
        assert(!body_addrs(body).contains(a));
    }
}

} // verus!
