//! The HTTP/1.x front-end: gathering the request preamble, reading the
//! request line, choosing the destination, and rewriting the headers that
//! go upstream.

use vstd::prelude::*;
use crate::bytes::{
    after, before, copy_of, decimal, eq_ignore_case, equals_ignore_case, find, find_bytes,
    find_from, has_prefix, has_prefix_ignore_case, lemma_find_from, lemma_skip_spaces,
    lemma_skip_word, occurs_at, parse_port, parse_port_bytes, push_all, push_decimal,
    skip_spaces, skip_spaces_in, skip_word, skip_word_in, split_once, starts_with,
    starts_with_ignore_case, text, text_bytes, trim, trim_bytes, words, words_from,
};
use crate::error::ProxyError;
use crate::target::{HostView, Target, TargetView};

verus! {

/// The most bytes a request preamble may have, blank line included.
pub const MAX_PREAMBLE: usize = 65536;

/// The line break of HTTP.
pub open spec fn crlf() -> Seq<u8> {
    seq![13u8, 10u8]
}

/// The empty line that ends the headers, with the line break before it.
pub open spec fn blank_line() -> Seq<u8> {
    seq![13u8, 10u8, 13u8, 10u8]
}

/// The offset of the first byte after the first blank line, if there is one.
pub open spec fn header_end(buf: Seq<u8>) -> Option<int> {
    match find(buf, blank_line()) {
        Some(i) => Some(i + 4),
        None => None,
    }
}

/// Splits a buffer at the end of the headers: the offset of the first body
/// byte, and the bytes from there on.
pub fn split_headers_body(buf: &[u8]) -> (r: Option<(usize, &[u8])>)
    ensures
        match r {
            Some((end, body)) => {
                &&& header_end(buf@) == Some(end as int)
                &&& 4 <= end <= buf@.len()
                &&& body@ == buf@.subrange(end as int, buf@.len() as int)
            },
            None => header_end(buf@) is None,
        },
{
    let pat: [u8; 4] = [13, 10, 13, 10];
    assert(pat@ =~= blank_line());
    proof {
        lemma_find_from(buf@, blank_line(), 0);
    }
    match find_bytes(buf, pat.as_slice(), 0) {
        Some(i) => {
            let n = buf.len();
            let body = vstd::slice::slice_subrange(buf, i + 4, n);
            Some((i + 4, body))
        },
        None => None,
    }
}

/// What a buffer of preamble bytes amounts to: the end of the headers if a
/// blank line ends within the bound, failure if the bound is passed without
/// one, and otherwise nothing yet.
pub open spec fn preamble_state(buf: Seq<u8>) -> Result<Option<int>, ProxyError> {
    match header_end(buf) {
        Some(end) if end <= MAX_PREAMBLE => Ok(Some(end)),
        _ => if buf.len() > MAX_PREAMBLE {
            Err(ProxyError::HeadersTooLarge)
        } else {
            Ok(None)
        },
    }
}

/// Takes what one read from the client returned. An empty `chunk` means the
/// peer has closed. Otherwise the chunk joins the buffer, and the result
/// says whether the headers are complete (and where they end), still
/// unfinished, or too large.
pub fn accept_chunk(buf: &mut Vec<u8>, chunk: &[u8]) -> (r: Result<Option<usize>, ProxyError>)
    ensures
        chunk@.len() == 0 ==> r == Err::<Option<usize>, ProxyError>(
            ProxyError::ClientClosedBeforeHeaders,
        ) && final(buf)@ == old(buf)@,
        chunk@.len() > 0 ==> final(buf)@ == old(buf)@ + chunk@ && match r {
            Ok(Some(end)) => preamble_state(final(buf)@) == Ok::<Option<int>, ProxyError>(
                Some(end as int),
            ),
            Ok(None) => preamble_state(final(buf)@) == Ok::<Option<int>, ProxyError>(None),
            Err(e) => preamble_state(final(buf)@) == Err::<Option<int>, ProxyError>(e),
        },
{
    if chunk.len() == 0 {
        return Err(ProxyError::ClientClosedBeforeHeaders);
    }
    push_all(buf, chunk);
    match split_headers_body(buf.as_slice()) {
        Some((end, _)) => {
            if end <= MAX_PREAMBLE {
                return Ok(Some(end));
            }
        },
        None => {},
    }
    if buf.len() > MAX_PREAMBLE {
        Err(ProxyError::HeadersTooLarge)
    } else {
        Ok(None)
    }
}

/// The state after a client has sent `chunks`, one read each, into a buffer
/// that held `buf`: reading stops at the first chunk that settles the matter.
pub open spec fn after_chunks(buf: Seq<u8>, chunks: Seq<Seq<u8>>) -> Result<
    Option<int>,
    ProxyError,
>
    decreases chunks.len(),
{
    if chunks.len() == 0 {
        Ok(None)
    } else if chunks[0].len() == 0 {
        Err(ProxyError::ClientClosedBeforeHeaders)
    } else {
        let grown = buf + chunks[0];
        match preamble_state(grown) {
            Ok(None) => after_chunks(grown, chunks.skip(1)),
            settled => settled,
        }
    }
}

/// All of `chunks`, one after the other.
pub open spec fn concat(chunks: Seq<Seq<u8>>) -> Seq<u8>
    decreases chunks.len(),
{
    if chunks.len() == 0 {
        Seq::empty()
    } else {
        chunks[0] + concat(chunks.skip(1))
    }
}

/// A blank line ends within the first `bound` bytes of `s`.
pub open spec fn blank_line_within(s: Seq<u8>, bound: int) -> bool {
    exists|i: int| occurs_at(s, blank_line(), i) && i + 4 <= bound
}

proof fn lemma_occurs_in_prefix(s: Seq<u8>, t: Seq<u8>, pat: Seq<u8>, i: int)
    requires
        occurs_at(s, pat, i),
    ensures
        occurs_at(s + t, pat, i),
{
    assert((s + t).subrange(i, i + pat.len()) =~= s.subrange(i, i + pat.len()));
}

proof fn lemma_after_chunks_too_large(buf: Seq<u8>, chunks: Seq<Seq<u8>>)
    requires
        forall|k: int| 0 <= k < chunks.len() ==> (#[trigger] chunks[k]).len() > 0,
        !blank_line_within(buf + concat(chunks), MAX_PREAMBLE as int),
        (buf + concat(chunks)).len() > MAX_PREAMBLE,
        buf.len() <= MAX_PREAMBLE,
    ensures
        after_chunks(buf, chunks) == Err::<Option<int>, ProxyError>(ProxyError::HeadersTooLarge),
    decreases chunks.len(),
{
    if chunks.len() == 0 {
        assert(concat(chunks) =~= Seq::<u8>::empty());
        assert(buf + concat(chunks) =~= buf);
    } else {
        let grown = buf + chunks[0];
        let rest = chunks.skip(1);
        let all = buf + concat(chunks);
        assert(all =~= grown + concat(rest));
        // No blank line ends within the bound in what has come so far.
        lemma_find_from(grown, blank_line(), 0);
        match header_end(grown) {
            Some(end) => {
                lemma_occurs_in_prefix(grown, concat(rest), blank_line(), end - 4);
                assert(end > MAX_PREAMBLE);
            },
            None => {},
        }
        if grown.len() > MAX_PREAMBLE {
        } else {
            assert forall|k: int| 0 <= k < rest.len() implies (#[trigger] rest[k]).len() > 0 by {
                assert(rest[k] == chunks[k + 1]);
            }
            lemma_after_chunks_too_large(grown, rest);
        }
    }
}

/// A client that sends more than 65,536 bytes, in whatever pieces, without a
/// blank line ending among the first 65,536 is turned away for headers too
/// large.
pub proof fn lemma_preamble_bound(chunks: Seq<Seq<u8>>)
    requires
        forall|k: int| 0 <= k < chunks.len() ==> (#[trigger] chunks[k]).len() > 0,
        !blank_line_within(concat(chunks), MAX_PREAMBLE as int),
        concat(chunks).len() > MAX_PREAMBLE,
    ensures
        after_chunks(Seq::empty(), chunks) == Err::<Option<int>, ProxyError>(
            ProxyError::HeadersTooLarge,
        ),
{
    assert(Seq::<u8>::empty() + concat(chunks) =~= concat(chunks));
    lemma_after_chunks_too_large(Seq::empty(), chunks);
}

/// As long as the headers are unfinished, the buffer holds no more than
/// the bound allows.
pub proof fn lemma_unfinished_is_bounded(buf: Seq<u8>)
    requires
        preamble_state(buf) == Ok::<Option<int>, ProxyError>(None),
    ensures
        buf.len() <= MAX_PREAMBLE,
{
}

/// Headers that are reported complete end within the bound, whatever the
/// client sent.
pub proof fn lemma_complete_within_bound(buf: Seq<u8>, chunks: Seq<Seq<u8>>)
    ensures
        match after_chunks(buf, chunks) {
            Ok(Some(end)) => 4 <= end <= MAX_PREAMBLE,
            _ => true,
        },
    decreases chunks.len(),
{
    if chunks.len() > 0 && chunks[0].len() > 0 {
        let grown = buf + chunks[0];
        lemma_find_from(grown, blank_line(), 0);
        lemma_complete_within_bound(grown, chunks.skip(1));
    }
}

/// The space that separates the fields of the request line.
pub const SPACE: u8 = 32;

/// The slash that starts a path.
pub const SLASH: u8 = 47;

/// The colon that separates host and port.
pub const COLON: u8 = 58;

/// The pieces between the line breaks of `h`, from offset `start` on. Text
/// that ends in a line break has an empty last piece.
pub open spec fn lines_from(h: Seq<u8>, start: int) -> Seq<Seq<u8>>
    decreases h.len() - start,
    via lines_from_decreases
{
    if start < 0 || start > h.len() {
        Seq::empty()
    } else {
        match find_from(h, crlf(), start) {
            Some(i) => seq![h.subrange(start, i)] + lines_from(h, i + 2),
            None => seq![h.subrange(start, h.len() as int)],
        }
    }
}

#[via_fn]
proof fn lines_from_decreases(h: Seq<u8>, start: int) {
    if 0 <= start <= h.len() {
        lemma_find_from(h, crlf(), start);
    }
}

/// There is always a first line.
pub proof fn lemma_lines_nonempty(h: Seq<u8>, start: int)
    requires
        0 <= start <= h.len(),
    ensures
        lines_from(h, start).len() >= 1,
{
}

/// The lines of `h`.
pub open spec fn lines(h: Seq<u8>) -> Seq<Seq<u8>> {
    lines_from(h, 0)
}

/// The contents of a vector of slices.
pub open spec fn views(v: Seq<&[u8]>) -> Seq<Seq<u8>> {
    Seq::new(v.len(), |i: int| v[i]@)
}

/// Splits `h` at its line breaks.
pub fn split_lines<'a>(h: &'a [u8]) -> (r: Vec<&'a [u8]>)
    ensures
        views(r@) == lines(h@),
        r@.len() >= 1,
{
    let brk: [u8; 2] = [13, 10];
    assert(brk@ =~= crlf());
    let n = h.len();
    let mut out: Vec<&'a [u8]> = Vec::new();
    let mut start: usize = 0;
    assert(views(out@) + lines_from(h@, 0) =~= lines(h@));
    loop
        invariant_except_break
            start <= n,
            lines(h@) == views(out@) + lines_from(h@, start as int),
        invariant
            n == h@.len(),
            brk@ == crlf(),
        ensures
            views(out@) == lines(h@),
            out@.len() >= 1,
        decreases n - start,
    {
        let ghost before_push = out@;
        proof {
            lemma_find_from(h@, crlf(), start as int);
        }
        match find_bytes(h, brk.as_slice(), start) {
            Some(i) => {
                out.push(vstd::slice::slice_subrange(h, start, i));
                assert(views(out@) =~= views(before_push) + seq![h@.subrange(start as int, i as int)]);
                assert(views(out@) + lines_from(h@, i + 2) =~= views(before_push) + lines_from(
                    h@,
                    start as int,
                ));
                start = i + 2;
            },
            None => {
                out.push(vstd::slice::slice_subrange(h, start, n));
                assert(views(out@) =~= views(before_push) + lines_from(h@, start as int));
                break ;
            },
        }
    }
    out
}

/// The three fields of the request line: method, target and version. The
/// request line is the first line; its fields are its first three words.
pub open spec fn request_line(h: Seq<u8>) -> Option<(Seq<u8>, Seq<u8>, Seq<u8>)> {
    let w = words(lines(h)[0]);
    if w.len() >= 3 {
        Some((w[0], w[1], w[2]))
    } else {
        None
    }
}

/// Reads method, target and version off the first line of `headers`.
pub fn parse_request_line<'a>(headers: &'a [u8]) -> (r: Result<
    (&'a [u8], &'a [u8], &'a [u8]),
    ProxyError,
>)
    ensures
        match r {
            Ok((method, uri, version)) => request_line(headers@) == Some(
                (method@, uri@, version@),
            ),
            Err(e) => e == ProxyError::BadRequestLine && request_line(headers@) is None,
        },
{
    let brk: [u8; 2] = [13, 10];
    assert(brk@ =~= crlf());
    proof {
        lemma_find_from(headers@, crlf(), 0);
    }
    let line: &'a [u8] = match find_bytes(headers, brk.as_slice(), 0) {
        Some(i) => vstd::slice::slice_subrange(headers, 0, i),
        None => headers,
    };
    assert(line@ =~= lines(headers@)[0]);
    let ghost s = line@;
    let n = line.len();
    let a0 = skip_spaces_in(line, 0);
    if a0 >= n {
        assert(words(s) =~= Seq::<Seq<u8>>::empty());
        return Err(ProxyError::BadRequestLine);
    }
    let b0 = skip_word_in(line, a0);
    let a1 = skip_spaces_in(line, b0);
    assert(words(s) =~= seq![s.subrange(a0 as int, b0 as int)] + words_from(s, b0 as int));
    if a1 >= n {
        assert(words_from(s, b0 as int) =~= Seq::<Seq<u8>>::empty());
        return Err(ProxyError::BadRequestLine);
    }
    let b1 = skip_word_in(line, a1);
    let a2 = skip_spaces_in(line, b1);
    assert(words_from(s, b0 as int) =~= seq![s.subrange(a1 as int, b1 as int)] + words_from(
        s,
        b1 as int,
    ));
    if a2 >= n {
        assert(words_from(s, b1 as int) =~= Seq::<Seq<u8>>::empty());
        return Err(ProxyError::BadRequestLine);
    }
    let b2 = skip_word_in(line, a2);
    assert(words_from(s, b1 as int) =~= seq![s.subrange(a2 as int, b2 as int)] + words_from(
        s,
        b2 as int,
    ));
    let method = vstd::slice::slice_subrange(line, a0, b0);
    let uri = vstd::slice::slice_subrange(line, a1, b1);
    let version = vstd::slice::slice_subrange(line, a2, b2);
    Ok((method, uri, version))
}

/// The line names the host: it starts with `host:`, in any case.
pub open spec fn is_host_line(l: Seq<u8>) -> bool {
    has_prefix_ignore_case(l, text("host:"))
}

/// The index of the first line at or after `from` that names the host.
pub open spec fn first_host_line(ls: Seq<Seq<u8>>, from: int) -> Option<int>
    decreases ls.len() - from,
{
    if from < 0 || from >= ls.len() {
        None
    } else if is_host_line(ls[from]) {
        Some(from)
    } else {
        first_host_line(ls, from + 1)
    }
}

/// The host that the header lines name: what follows `host:` in the first
/// such line after the request line, without the white space around it.
pub open spec fn host_in(ls: Seq<Seq<u8>>) -> Option<Seq<u8>> {
    match first_host_line(ls, 1) {
        Some(k) => Some(trim(ls[k].skip(5))),
        None => None,
    }
}

/// Some line after the request line names the host.
pub open spec fn names_host(ls: Seq<Seq<u8>>) -> bool {
    exists|k: int| 1 <= k < ls.len() && is_host_line(#[trigger] ls[k])
}

/// What `first_host_line` returns is the first line that names the host,
/// and `None` means that no line does.
pub proof fn lemma_first_host_line(ls: Seq<Seq<u8>>, from: int)
    requires
        0 <= from,
    ensures
        match first_host_line(ls, from) {
            Some(k) => from <= k < ls.len() && is_host_line(ls[k]) && forall|j: int|
                from <= j < k ==> !is_host_line(#[trigger] ls[j]),
            None => forall|j: int| from <= j < ls.len() ==> !is_host_line(#[trigger] ls[j]),
        },
    decreases ls.len() - from,
{
    if from < ls.len() && !is_host_line(ls[from]) {
        lemma_first_host_line(ls, from + 1);
    }
}

proof fn lemma_host_prefix()
    ensures
        text("host:").len() == 5,
{
    reveal_strlit("host:");
    assert(vstd::string::is_ascii("host:"));
    vstd::string::is_ascii_spec_bytes("host:");
}

fn host_among(lines: &Vec<&[u8]>) -> (r: Option<Vec<u8>>)
    ensures
        match r {
            Some(v) => host_in(views(lines@)) == Some(v@),
            None => host_in(views(lines@)) is None,
        },
{
    let ghost ls = views(lines@);
    let mut k: usize = 1;
    while k < lines.len()
        invariant
            1 <= k,
            ls == views(lines@),
            first_host_line(ls, 1) == first_host_line(ls, k as int),
        decreases lines.len() - k,
    {
        let line: &[u8] = lines[k];
        assert(line@ == ls[k as int]);
        if starts_with_ignore_case(line, text_bytes("host:")) {
            proof {
                lemma_host_prefix();
            }
            let n = line.len();
            let value = trim_bytes(vstd::slice::slice_subrange(line, 5, n));
            assert(line@.subrange(5, n as int) =~= line@.skip(5));
            return Some(copy_of(value));
        }
        k += 1;
    }
    None
}

/// The host that the `Host` header of `headers` names, if there is one.
pub fn parse_host_from_headers(headers: &[u8]) -> (r: Option<Vec<u8>>)
    ensures
        match r {
            Some(v) => host_in(lines(headers@)) == Some(v@),
            None => host_in(lines(headers@)) is None,
        },
{
    let lines = split_lines(headers);
    host_among(&lines)
}

/// The port that `s` writes, or `default` where it writes none.
pub open spec fn port_or(s: Seq<u8>, default: u16) -> u16 {
    match parse_port(s) {
        Some(p) => p,
        None => default,
    }
}

/// The destination of a tunnel request: the host is what stands before the
/// first colon of the target, the port what stands between the first and the
/// second. Without a port that can be read, the port is 443.
pub open spec fn tunnel_target(uri: Seq<u8>) -> (Seq<u8>, u16) {
    match after(uri, COLON) {
        Some(rest) => (before(uri, COLON), port_or(before(rest, COLON), 443)),
        None => (uri, 443),
    }
}

/// Host and port of an authority: the host is what stands before the first
/// colon, the port all that follows it. Without a port that can be read, the
/// port is 80.
pub open spec fn host_and_port(authority: Seq<u8>) -> (Seq<u8>, u16) {
    match after(authority, COLON) {
        Some(rest) => (before(authority, COLON), port_or(rest, 80)),
        None => (authority, 80),
    }
}

/// Authority and path of a request that is to be forwarded. An absolute
/// `http://` target carries both; a target in origin form is the path, and
/// the authority is what the `Host` header names (nothing, where there is no
/// such header). Any other target cannot be forwarded.
pub open spec fn forward_parts(uri: Seq<u8>, ls: Seq<Seq<u8>>) -> Option<(Seq<u8>, Seq<u8>)> {
    if has_prefix(uri, text("http://")) {
        let rest = uri.skip(7);
        match find(rest, seq![SLASH]) {
            Some(p) => Some((rest.subrange(0, p), rest.skip(p))),
            None => Some((rest, seq![SLASH])),
        }
    } else if uri.len() > 0 && uri[0] == SLASH {
        Some(
            (
                match host_in(ls) {
                    Some(h) => h,
                    None => Seq::empty(),
                },
                uri,
            ),
        )
    } else {
        None
    }
}

/// The line is a hop-by-hop header that must not travel upstream.
pub open spec fn is_hop_line(l: Seq<u8>) -> bool {
    has_prefix_ignore_case(l, text("proxy-connection:")) || has_prefix_ignore_case(
        l,
        text("proxy-authorization:"),
    )
}

/// The line goes upstream: it is not empty and no hop-by-hop header.
pub open spec fn forwarded(l: Seq<u8>) -> bool {
    l.len() > 0 && !is_hop_line(l)
}

/// Those of `ls` that go upstream, in their order.
pub open spec fn kept(ls: Seq<Seq<u8>>) -> Seq<Seq<u8>> {
    ls.filter(|l: Seq<u8>| forwarded(l))
}

/// The `Host` header that the proxy writes where the client wrote none.
pub open spec fn host_line(host: Seq<u8>, port: u16) -> Seq<u8> {
    text("Host: ") + host + if port == 80 {
        Seq::<u8>::empty()
    } else {
        seq![COLON] + decimal(port as nat)
    }
}

/// The request line that goes upstream.
pub open spec fn start_line(method: Seq<u8>, path: Seq<u8>, version: Seq<u8>) -> Seq<u8> {
    method + seq![SPACE] + path + seq![SPACE] + version
}

/// The lines of the preamble that goes upstream: the request line with the
/// path for target, the client's header lines without the empty and the
/// hop-by-hop ones, and a `Host` header where the client sent none.
pub open spec fn upstream_lines(
    method: Seq<u8>,
    path: Seq<u8>,
    version: Seq<u8>,
    ls: Seq<Seq<u8>>,
    host: Seq<u8>,
    port: u16,
) -> Seq<Seq<u8>> {
    seq![start_line(method, path, version)] + kept(ls.skip(1)) + if names_host(ls) {
        Seq::<Seq<u8>>::empty()
    } else {
        seq![host_line(host, port)]
    }
}

/// The lines, each followed by a line break.
pub open spec fn join_lines(ls: Seq<Seq<u8>>) -> Seq<u8>
    decreases ls.len(),
{
    if ls.len() == 0 {
        Seq::empty()
    } else {
        join_lines(ls.drop_last()) + ls.last() + crlf()
    }
}

/// The preamble that goes upstream: its lines and the blank line.
pub open spec fn upstream_preamble(
    method: Seq<u8>,
    path: Seq<u8>,
    version: Seq<u8>,
    ls: Seq<Seq<u8>>,
    host: Seq<u8>,
    port: u16,
) -> Seq<u8> {
    join_lines(upstream_lines(method, path, version, ls, host, port)) + crlf()
}

proof fn lemma_kept_push(ls: Seq<Seq<u8>>, l: Seq<u8>)
    ensures
        kept(ls.push(l)) == if forwarded(l) {
            kept(ls).push(l)
        } else {
            kept(ls)
        },
{
    reveal(Seq::filter);
    assert(ls.push(l).drop_last() =~= ls);
}

proof fn lemma_kept_empty()
    ensures
        kept(Seq::<Seq<u8>>::empty()) == Seq::<Seq<u8>>::empty(),
{
    reveal(Seq::filter);
}

proof fn lemma_join_push(ls: Seq<Seq<u8>>, l: Seq<u8>)
    ensures
        join_lines(ls.push(l)) == join_lines(ls) + l + crlf(),
{
    assert(ls.push(l).drop_last() =~= ls);
}

fn push_break(out: &mut Vec<u8>)
    ensures
        final(out)@ == old(out)@ + crlf(),
{
    out.push(13);
    out.push(10);
    assert(final(out)@ =~= old(out)@ + crlf());
}

/// Writes the preamble that goes upstream.
fn rewrite(
    method: &[u8],
    path: &[u8],
    version: &[u8],
    lines: &Vec<&[u8]>,
    host: &[u8],
    port: u16,
) -> (out: Vec<u8>)
    requires
        lines@.len() >= 1,
    ensures
        out@ == upstream_preamble(method@, path@, version@, views(lines@), host@, port),
{
    let ghost ls = views(lines@);
    let ghost first = start_line(method@, path@, version@);
    let mut out: Vec<u8> = Vec::new();
    push_all(&mut out, method);
    out.push(SPACE);
    push_all(&mut out, path);
    out.push(SPACE);
    push_all(&mut out, version);
    assert(out@ =~= first);
    push_break(&mut out);
    proof {
        lemma_kept_empty();
        lemma_join_push(Seq::empty(), first);
        assert(Seq::<Seq<u8>>::empty().push(first) =~= seq![first]);
        assert(join_lines(Seq::<Seq<u8>>::empty()) =~= Seq::<u8>::empty());
        assert(ls.subrange(1, 1) =~= Seq::<Seq<u8>>::empty());
        assert(seq![first] + kept(ls.subrange(1, 1)) =~= seq![first]);
        assert(out@ =~= join_lines(seq![first]));
    }
    let mut has_host = false;
    let mut i: usize = 1;
    while i < lines.len()
        invariant
            1 <= i <= lines.len(),
            ls == views(lines@),
            first == start_line(method@, path@, version@),
            out@ == join_lines(seq![first] + kept(ls.subrange(1, i as int))),
            has_host <==> exists|k: int| 1 <= k < i && is_host_line(#[trigger] ls[k]),
        decreases lines.len() - i,
    {
        let line: &[u8] = lines[i];
        assert(line@ == ls[i as int]);
        let ghost so_far = ls.subrange(1, i as int);
        proof {
            assert(ls.subrange(1, i + 1) =~= so_far.push(line@));
            lemma_kept_push(so_far, line@);
        }
        if line.len() > 0 {
            if starts_with_ignore_case(line, text_bytes("host:")) {
                has_host = true;
            }
            let hop = starts_with_ignore_case(line, text_bytes("proxy-connection:"))
                || starts_with_ignore_case(line, text_bytes("proxy-authorization:"));
            if !hop {
                proof {
                    lemma_join_push(seq![first] + kept(so_far), line@);
                    assert((seq![first] + kept(so_far)).push(line@) =~= seq![first] + kept(
                        so_far,
                    ).push(line@));
                }
                push_all(&mut out, line);
                push_break(&mut out);
            }
        } else {
            proof {
                lemma_host_prefix();
            }
        }
        i += 1;
    }
    assert(ls.subrange(1, i as int) =~= ls.skip(1));
    let ghost body = seq![first] + kept(ls.skip(1));
    if !has_host {
        let ghost before_host = out@;
        push_all(&mut out, text_bytes("Host: "));
        push_all(&mut out, host);
        if port != 80 {
            out.push(COLON);
            push_decimal(&mut out, port as u64);
        }
        proof {
            let hl = host_line(host@, port);
            assert(out@ =~= before_host + hl);
            lemma_join_push(body, hl);
            assert(body.push(hl) =~= body + seq![hl]);
        }
        push_break(&mut out);
    } else {
        assert(body + Seq::<Seq<u8>>::empty() =~= body);
    }
    push_break(&mut out);
    out
}

/// What is to be done with a request.
#[derive(Debug, PartialEq, Eq)]
pub enum Route {
    /// Connect to the target, tell the client that the tunnel stands, send
    /// the target the bytes that came with the headers, and relay.
    Tunnel { target: Target, body: Vec<u8> },
    /// Connect to the target, send it the preamble and then the body bytes
    /// that came with the headers, and relay.
    Forward { target: Target, preamble: Vec<u8>, body: Vec<u8> },
}

/// The mathematical value of a `Route`.
pub ghost enum RouteView {
    Tunnel { target: TargetView, body: Seq<u8> },
    Forward { target: TargetView, preamble: Seq<u8>, body: Seq<u8> },
}

impl View for Route {
    type V = RouteView;

    open spec fn view(&self) -> RouteView {
        match self {
            Route::Tunnel { target, body } => RouteView::Tunnel { target: target@, body: body@ },
            Route::Forward { target, preamble, body } => RouteView::Forward {
                target: target@,
                preamble: preamble@,
                body: body@,
            },
        }
    }
}

/// The destination with the name `host`.
pub open spec fn named(host: Seq<u8>, port: u16) -> TargetView {
    TargetView { host: HostView::Name(host), port }
}

/// What is to be done with the request that `raw` starts with. `raw` is the
/// buffer as it stood when the headers were complete: the headers as far as
/// the first blank line, then whatever the client had already sent of the
/// body.
pub open spec fn route(raw: Seq<u8>) -> Result<RouteView, ProxyError> {
    match header_end(raw) {
        None => Err(ProxyError::BadHeaders),
        Some(end) => {
            let h = raw.subrange(0, end);
            match request_line(h) {
                None => Err(ProxyError::BadRequestLine),
                Some((method, uri, version)) => if eq_ignore_case(method, text("CONNECT")) {
                    let (host, port) = tunnel_target(uri);
                    Ok(RouteView::Tunnel { target: named(host, port), body: raw.skip(end) })
                } else {
                    match forward_parts(uri, lines(h)) {
                        None => Err(ProxyError::UnsupportedUri),
                        Some((authority, path)) => {
                            let (host, port) = host_and_port(authority);
                            Ok(
                                RouteView::Forward {
                                    target: named(host, port),
                                    preamble: upstream_preamble(
                                        method,
                                        path,
                                        version,
                                        lines(h),
                                        host,
                                        port,
                                    ),
                                    body: raw.skip(end),
                                },
                            )
                        },
                    }
                },
            }
        },
    }
}

fn tunnel_destination(uri: &[u8]) -> (r: (Vec<u8>, u16))
    ensures
        (r.0@, r.1) == tunnel_target(uri@),
{
    match split_once(uri, COLON) {
        Some((host, rest)) => {
            let digits = match split_once(rest, COLON) {
                Some((d, _)) => d,
                None => rest,
            };
            let port = match parse_port_bytes(digits) {
                Some(p) => p,
                None => 443,
            };
            (copy_of(host), port)
        },
        None => (copy_of(uri), 443),
    }
}

fn split_authority(authority: &[u8]) -> (r: (Vec<u8>, u16))
    ensures
        (r.0@, r.1) == host_and_port(authority@),
{
    match split_once(authority, COLON) {
        Some((host, rest)) => {
            let port = match parse_port_bytes(rest) {
                Some(p) => p,
                None => 80,
            };
            (copy_of(host), port)
        },
        None => (copy_of(authority), 80),
    }
}

proof fn lemma_scheme_prefix()
    ensures
        text("http://").len() == 7,
{
    reveal_strlit("http://");
    assert(vstd::string::is_ascii("http://"));
    vstd::string::is_ascii_spec_bytes("http://");
}

fn split_target(uri: &[u8], lines: &Vec<&[u8]>) -> (r: Option<(Vec<u8>, Vec<u8>)>)
    ensures
        match r {
            Some((authority, path)) => forward_parts(uri@, views(lines@)) == Some(
                (authority@, path@),
            ),
            None => forward_parts(uri@, views(lines@)) is None,
        },
{
    if starts_with(uri, text_bytes("http://")) {
        proof {
            lemma_scheme_prefix();
        }
        let n = uri.len();
        let rest = vstd::slice::slice_subrange(uri, 7, n);
        assert(rest@ =~= uri@.skip(7));
        match crate::bytes::find_byte(rest, SLASH) {
            Some(p) => {
                let m = rest.len();
                let authority = vstd::slice::slice_subrange(rest, 0, p);
                let path = vstd::slice::slice_subrange(rest, p, m);
                assert(path@ =~= rest@.skip(p as int));
                Some((copy_of(authority), copy_of(path)))
            },
            None => {
                let mut path: Vec<u8> = Vec::new();
                path.push(SLASH);
                assert(path@ =~= seq![SLASH]);
                Some((copy_of(rest), path))
            },
        }
    } else if uri.len() > 0 && uri[0] == SLASH {
        let authority = match host_among(lines) {
            Some(h) => h,
            None => Vec::new(),
        };
        Some((authority, copy_of(uri)))
    } else {
        None
    }
}

/// Decides what is to be done with the request that `raw` starts with: a
/// tunnel for `CONNECT`, forwarding with rewritten headers for a target in
/// absolute `http://` or in origin form, and an error for anything else.
pub fn route_request(raw: &[u8]) -> (r: Result<Route, ProxyError>)
    ensures
        match r {
            Ok(plan) => route(raw@) == Ok::<RouteView, ProxyError>(plan@),
            Err(e) => route(raw@) == Err::<RouteView, ProxyError>(e),
        },
{
    let (end, body) = match split_headers_body(raw) {
        Some(found) => found,
        None => {
            return Err(ProxyError::BadHeaders);
        },
    };
    let headers = vstd::slice::slice_subrange(raw, 0, end);
    assert(body@ =~= raw@.skip(end as int));
    let (method, uri, version) = match parse_request_line(headers) {
        Ok(fields) => fields,
        Err(e) => {
            return Err(e);
        },
    };
    if equals_ignore_case(method, text_bytes("CONNECT")) {
        let (host, port) = tunnel_destination(uri);
        return Ok(Route::Tunnel { target: Target::named(host, port), body: copy_of(body) });
    }
    let lines = split_lines(headers);
    match split_target(uri, &lines) {
        None => Err(ProxyError::UnsupportedUri),
        Some((authority, path)) => {
            let (host, port) = split_authority(authority.as_slice());
            let preamble = rewrite(method, path.as_slice(), version, &lines, host.as_slice(), port);
            Ok(Route::Forward { target: Target::named(host, port), preamble, body: copy_of(body) })
        },
    }
}

/// What the client is told once its tunnel stands.
pub open spec fn tunnel_reply() -> Seq<u8> {
    text("HTTP/1.1 200 Connection Established\r\nProxy-Agent: iface-proxy\r\n\r\n")
}

/// The reply to a `CONNECT` whose destination was reached.
pub fn connection_established() -> (reply: Vec<u8>)
    ensures
        reply@ == tunnel_reply(),
{
    copy_of(text_bytes("HTTP/1.1 200 Connection Established\r\nProxy-Agent: iface-proxy\r\n\r\n"))
}

/// What the client of a tunnel is told when the attempt to reach the
/// destination has ended: that the tunnel stands if it was reached, and
/// nothing if not (the connection is then closed without a reply).
pub open spec fn connect_reply_of(connected: bool) -> Seq<u8> {
    if connected {
        tunnel_reply()
    } else {
        Seq::empty()
    }
}

/// What to write to the client of a tunnel when the attempt to reach the
/// destination has ended.
pub fn connect_reply(connected: bool) -> (reply: Vec<u8>)
    ensures
        reply@ == connect_reply_of(connected),
{
    if connected {
        connection_established()
    } else {
        Vec::new()
    }
}

} // verus!
