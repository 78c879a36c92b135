//! What holds of every preamble that the HTTP front-end sends upstream.

use vstd::prelude::*;
use crate::bytes::{
    after, all_digits, before, contains, decimal, find, find_from, has_prefix,
    has_prefix_ignore_case, is_digit, is_space, lemma_decimal_value, lemma_find_from,
    lemma_find_from_is, lemma_occurs_byte, lemma_parse_decimal_port, lemma_skip_spaces,
    lemma_skip_word, lower, occurs_at, skip_spaces, skip_word, text, words, words_from,
};
use crate::error::ProxyError;
use crate::http::{
    crlf, first_host_line, forward_parts, header_end, host_and_port, host_in, host_line,
    is_hop_line, is_host_line, join_lines, kept, lemma_first_host_line, lemma_lines_nonempty,
    lines, lines_from, named, names_host, request_line, route, start_line, upstream_lines,
    upstream_preamble, RouteView, COLON, SLASH, SPACE,
};
use crate::bytes::eq_ignore_case;

verus! {

proof fn lemma_host_text()
    ensures
        text("Host: ") =~= seq![72u8, 111u8, 115u8, 116u8, 58u8, 32u8],
        text("host:") =~= seq![104u8, 111u8, 115u8, 116u8, 58u8],
        text("proxy-connection:").len() == 17,
        text("proxy-connection:")[0] == 112u8,
        text("proxy-authorization:").len() == 20,
        text("proxy-authorization:")[0] == 112u8,
        text("http://") =~= seq![104u8, 116u8, 116u8, 112u8, 58u8, 47u8, 47u8],
{
    reveal_strlit("Host: ");
    assert(vstd::string::is_ascii("Host: "));
    vstd::string::is_ascii_spec_bytes("Host: ");
    reveal_strlit("host:");
    assert(vstd::string::is_ascii("host:"));
    vstd::string::is_ascii_spec_bytes("host:");
    reveal_strlit("proxy-connection:");
    assert(vstd::string::is_ascii("proxy-connection:"));
    vstd::string::is_ascii_spec_bytes("proxy-connection:");
    reveal_strlit("proxy-authorization:");
    assert(vstd::string::is_ascii("proxy-authorization:"));
    vstd::string::is_ascii_spec_bytes("proxy-authorization:");
    reveal_strlit("http://");
    assert(vstd::string::is_ascii("http://"));
    vstd::string::is_ascii_spec_bytes("http://");
}

/// The `Host` header that the proxy writes is a line that names the host,
/// and no hop-by-hop header.
pub proof fn lemma_host_line(host: Seq<u8>, port: u16)
    ensures
        is_host_line(host_line(host, port)),
        !is_hop_line(host_line(host, port)),
{
    lemma_host_text();
    let l = host_line(host, port);
    let p = text("host:");
    assert forall|i: int| 0 <= i < p.len() implies lower(#[trigger] l[i]) == lower(p[i]) by {
        assert(l[i] == text("Host: ")[i]);
    }
    assert(l[0] == 72u8);
    assert(lower(l[0]) != lower(text("proxy-connection:")[0]));
    assert(lower(l[0]) != lower(text("proxy-authorization:")[0]));
}

/// Every line that was kept stood among the lines, and goes upstream.
proof fn lemma_kept_member(ls: Seq<Seq<u8>>, k: int)
    requires
        0 <= k < kept(ls).len(),
    ensures
        ls.contains(kept(ls)[k]),
        kept(ls)[k].len() > 0,
        !is_hop_line(kept(ls)[k]),
{
    let pred = |l: Seq<u8>| crate::http::forwarded(l);
    ls.lemma_filter_pred(pred, k);
    assert(ls.filter(pred).contains(kept(ls)[k]));
    ls.lemma_filter_contains_rev(pred, kept(ls)[k]);
}

/// No header line that goes upstream starts with
/// `Proxy-Connection:` or `Proxy-Authorization:`, in whatever case the
/// client wrote them. (The request line, at index 0, is made of the
/// client's method, the path and the version.)
pub proof fn lemma_hop_headers_stripped(
    method: Seq<u8>,
    path: Seq<u8>,
    version: Seq<u8>,
    ls: Seq<Seq<u8>>,
    host: Seq<u8>,
    port: u16,
)
    requires
        ls.len() >= 1,
    ensures
        forall|k: int|
            1 <= k < upstream_lines(method, path, version, ls, host, port).len()
                ==> !is_hop_line(
                #[trigger] upstream_lines(method, path, version, ls, host, port)[k],
            ),
{
    let out = upstream_lines(method, path, version, ls, host, port);
    let mid = kept(ls.skip(1));
    assert forall|k: int| 1 <= k < out.len() implies !is_hop_line(#[trigger] out[k]) by {
        if k < 1 + mid.len() {
            assert(out[k] == mid[k - 1]);
            lemma_kept_member(ls.skip(1), k - 1);
        } else {
            assert(out[k] == host_line(host, port));
            lemma_host_line(host, port);
        }
    }
}

/// Where the client's headers name no host, the lines that
/// go upstream hold exactly one `Host` header. It is the last line, and it
/// reads `Host: ` and the host where the port is 80, else `Host: `, the
/// host, a colon and the port in decimal.
pub proof fn lemma_host_synthesized(
    method: Seq<u8>,
    path: Seq<u8>,
    version: Seq<u8>,
    ls: Seq<Seq<u8>>,
    host: Seq<u8>,
    port: u16,
)
    requires
        ls.len() >= 1,
        !names_host(ls),
    ensures
        ({
            let out = upstream_lines(method, path, version, ls, host, port);
            &&& out.len() >= 2
            &&& is_host_line(out.last())
            &&& forall|k: int| 1 <= k < out.len() - 1 ==> !is_host_line(#[trigger] out[k])
            &&& port == 80 ==> out.last() == text("Host: ") + host
            &&& port != 80 ==> out.last() == text("Host: ") + host + seq![COLON] + decimal(
                port as nat,
            )
        }),
{
    let out = upstream_lines(method, path, version, ls, host, port);
    let mid = kept(ls.skip(1));
    lemma_host_line(host, port);
    assert(out.last() == host_line(host, port));
    assert forall|k: int| 1 <= k < out.len() - 1 implies !is_host_line(#[trigger] out[k]) by {
        assert(out[k] == mid[k - 1]);
        lemma_kept_member(ls.skip(1), k - 1);
        let j = choose|j: int| 0 <= j < ls.skip(1).len() && ls.skip(1)[j] == mid[k - 1];
        assert(ls[j + 1] == mid[k - 1]);
    }
    if port == 80 {
        assert(text("Host: ") + host + Seq::<u8>::empty() =~= text("Host: ") + host);
    } else {
        assert(text("Host: ") + host + (seq![COLON] + decimal(port as nat)) =~= text("Host: ")
            + host + seq![COLON] + decimal(port as nat));
    }
}

/// Where the client's headers do name a host, no `Host` header is added:
/// the header lines that go upstream are those of the client that were kept.
pub proof fn lemma_host_kept(
    method: Seq<u8>,
    path: Seq<u8>,
    version: Seq<u8>,
    ls: Seq<Seq<u8>>,
    host: Seq<u8>,
    port: u16,
)
    requires
        ls.len() >= 1,
        names_host(ls),
    ensures
        upstream_lines(method, path, version, ls, host, port).skip(1) == kept(ls.skip(1)),
{
    let out = upstream_lines(method, path, version, ls, host, port);
    assert(out.skip(1) =~= kept(ls.skip(1)));
}

/// `s` holds neither a slash nor a colon.
pub open spec fn is_plain_host(s: Seq<u8>) -> bool {
    forall|i: int| 0 <= i < s.len() ==> #[trigger] s[i] != SLASH && s[i] != COLON
}

/// The absolute target `http://H:P/p`.
pub open spec fn absolute_target(host: Seq<u8>, port: u16, path: Seq<u8>) -> Seq<u8> {
    text("http://") + host + seq![COLON] + decimal(port as nat) + path
}

/// An absolute target `http://H:P/p` is taken apart into the host `H`, the
/// port `P` and the path `/p`, whatever the headers say.
pub proof fn lemma_absolute_target(host: Seq<u8>, port: u16, path: Seq<u8>, ls: Seq<Seq<u8>>)
    requires
        is_plain_host(host),
        path.len() > 0,
        path[0] == SLASH,
    ensures
        forward_parts(absolute_target(host, port, path), ls) == Some(
            (host + seq![COLON] + decimal(port as nat), path),
        ),
        host_and_port(host + seq![COLON] + decimal(port as nat)) == (host, port),
{
    lemma_host_text();
    lemma_decimal_value(port as nat);
    lemma_parse_decimal_port(port);
    let digits = decimal(port as nat);
    let authority = host + seq![COLON] + digits;
    let uri = absolute_target(host, port, path);
    assert(uri.subrange(0, 7) =~= text("http://"));
    assert(has_prefix(uri, text("http://")));
    let rest = uri.skip(7);
    assert(rest =~= authority + path);
    // The first slash of what follows the scheme is the one the path starts with.
    let at = authority.len() as int;
    assert forall|j: int| 0 <= j < at implies !occurs_at(rest, seq![SLASH], j) by {
        lemma_occurs_byte(rest, SLASH, j);
        if j < host.len() {
            assert(rest[j] == host[j]);
        } else if j == host.len() {
            assert(rest[j] == COLON);
        } else {
            assert(rest[j] == digits[j - host.len() - 1]);
        }
    }
    lemma_occurs_byte(rest, SLASH, at);
    assert(rest[at] == path[0]);
    lemma_find_from_is(rest, seq![SLASH], 0, at);
    assert(rest.subrange(0, at) =~= authority);
    assert(rest.skip(at) =~= path);
    // The first colon of the authority is the one behind the host.
    let colon = host.len() as int;
    assert forall|j: int| 0 <= j < colon implies !occurs_at(authority, seq![COLON], j) by {
        lemma_occurs_byte(authority, COLON, j);
        assert(authority[j] == host[j]);
    }
    lemma_occurs_byte(authority, COLON, colon);
    assert(authority[colon] == COLON);
    lemma_find_from_is(authority, seq![COLON], 0, colon);
    assert(authority.subrange(0, colon) =~= host);
    assert(authority.skip(colon + 1) =~= digits);
    assert(before(authority, COLON) == host);
    assert(after(authority, COLON) == Some(digits));
}

/// A request that is no `CONNECT`, has the absolute target `http://H:P/p` and names no host
/// in its headers is forwarded to `H` at port `P`, and the lines that go
/// upstream hold exactly one `Host` header, the last line: `Host: H` where
/// `P` is 80, else `Host: H:P`.
pub proof fn lemma_absolute_request(
    raw: Seq<u8>,
    method: Seq<u8>,
    version: Seq<u8>,
    host: Seq<u8>,
    port: u16,
    path: Seq<u8>,
)
    requires
        header_end(raw) is Some,
        request_line(raw.subrange(0, header_end(raw).unwrap())) == Some(
            (method, absolute_target(host, port, path), version),
        ),
        !eq_ignore_case(method, text("CONNECT")),
        is_plain_host(host),
        path.len() > 0,
        path[0] == SLASH,
        !names_host(lines(raw.subrange(0, header_end(raw).unwrap()))),
    ensures
        ({
            let end = header_end(raw).unwrap();
            let ls = lines(raw.subrange(0, end));
            let out = upstream_lines(method, path, version, ls, host, port);
            &&& route(raw) == Ok::<RouteView, ProxyError>(
                RouteView::Forward {
                    target: named(host, port),
                    preamble: upstream_preamble(method, path, version, ls, host, port),
                    body: raw.skip(end),
                },
            )
            &&& out.len() >= 2
            &&& is_host_line(out.last())
            &&& forall|k: int| 1 <= k < out.len() - 1 ==> !is_host_line(#[trigger] out[k])
            &&& port == 80 ==> out.last() == text("Host: ") + host
            &&& port != 80 ==> out.last() == text("Host: ") + host + seq![COLON] + decimal(
                port as nat,
            )
        }),
{
    let end = header_end(raw).unwrap();
    let ls = lines(raw.subrange(0, end));
    lemma_absolute_target(host, port, path, ls);
    crate::http::lemma_lines_nonempty(raw.subrange(0, end), 0);
    lemma_host_synthesized(method, path, version, ls, host, port);
}

/// `s` holds no line break.
pub open spec fn unbroken(s: Seq<u8>) -> bool {
    !contains(s, crlf())
}

/// `s` holds neither a carriage return nor a line feed.
pub open spec fn plain(s: Seq<u8>) -> bool {
    forall|i: int| 0 <= i < s.len() ==> #[trigger] s[i] != 13 && s[i] != 10
}

/// `s` holds no white space.
pub open spec fn spaceless(s: Seq<u8>) -> bool {
    forall|i: int| 0 <= i < s.len() ==> !is_space(#[trigger] s[i])
}

proof fn lemma_occurs_break(s: Seq<u8>, i: int)
    ensures
        occurs_at(s, crlf(), i) <==> (0 <= i && i + 2 <= s.len() && s[i] == 13 && s[i + 1] == 10),
{
    if 0 <= i && i + 2 <= s.len() {
        let w = s.subrange(i, i + 2);
        assert(w[0] == s[i]);
        assert(w[1] == s[i + 1]);
        if s[i] == 13 && s[i + 1] == 10 {
            assert(w =~= crlf());
        }
    }
}

proof fn lemma_plain_unbroken(s: Seq<u8>)
    requires
        plain(s),
    ensures
        unbroken(s),
{
    assert forall|i: int| !occurs_at(s, crlf(), i) by {
        lemma_occurs_break(s, i);
    }
}

proof fn lemma_plain_concat(a: Seq<u8>, b: Seq<u8>)
    requires
        plain(a),
        plain(b),
    ensures
        plain(a + b),
{
    assert forall|i: int| 0 <= i < (a + b).len() implies #[trigger] (a + b)[i] != 13 && (a + b)[i]
        != 10 by {
        if i < a.len() {
            assert((a + b)[i] == a[i]);
        } else {
            assert((a + b)[i] == b[i - a.len()]);
        }
    }
}

proof fn lemma_spaceless_plain(s: Seq<u8>)
    requires
        spaceless(s),
    ensures
        plain(s),
{
    assert forall|i: int| 0 <= i < s.len() implies #[trigger] s[i] != 13 && s[i] != 10 by {
        assert(!is_space(s[i]));
    }
}

proof fn lemma_spaceless_part(s: Seq<u8>, from: int, to: int)
    requires
        spaceless(s),
        0 <= from <= to <= s.len(),
    ensures
        spaceless(s.subrange(from, to)),
{
    assert forall|i: int| 0 <= i < to - from implies !is_space(#[trigger] s.subrange(from, to)[i]) by {
        assert(s.subrange(from, to)[i] == s[from + i]);
    }
}

/// Words hold no white space.
pub proof fn lemma_words_spaceless(s: Seq<u8>, i: int, k: int)
    requires
        0 <= i <= s.len(),
        0 <= k < words_from(s, i).len(),
    ensures
        spaceless(words_from(s, i)[k]),
        words_from(s, i)[k].len() > 0,
    decreases s.len() - i,
{
    lemma_skip_spaces(s, i);
    let a = skip_spaces(s, i);
    if a < s.len() {
        lemma_skip_word(s, a);
        let b = skip_word(s, a);
        let word = s.subrange(a, b);
        if k == 0 {
            assert(words_from(s, i)[0] == word);
            assert forall|j: int| 0 <= j < word.len() implies !is_space(#[trigger] word[j]) by {
                assert(word[j] == s[a + j]);
            }
        } else {
            assert(words_from(s, i)[k] == words_from(s, b)[k - 1]);
            lemma_words_spaceless(s, b, k - 1);
        }
    }
}

/// Searching from an offset is searching what stands behind the offset.
proof fn lemma_find_shift(s: Seq<u8>, pat: Seq<u8>, k: int)
    requires
        0 <= k <= s.len(),
    ensures
        find_from(s, pat, k) == match find_from(s.skip(k), pat, 0) {
            Some(i) => Some(i + k),
            None => None,
        },
{
    let t = s.skip(k);
    lemma_find_from(s, pat, k);
    lemma_find_from(t, pat, 0);
    assert forall|j: int| 0 <= j implies (occurs_at(t, pat, j) <==> occurs_at(s, pat, j + k)) by {
        if j + pat.len() <= t.len() {
            assert(t.subrange(j, j + pat.len()) =~= s.subrange(j + k, j + k + pat.len()));
        }
    }
    match find_from(t, pat, 0) {
        Some(i) => {
            assert(occurs_at(s, pat, i + k));
            assert forall|j: int| k <= j < i + k implies !occurs_at(s, pat, j) by {
                assert(!occurs_at(t, pat, j - k));
            }
            lemma_find_from_is(s, pat, k, i + k);
        },
        None => {
            match find_from(s, pat, k) {
                Some(i) => {
                    assert(occurs_at(t, pat, i - k));
                },
                None => {},
            }
        },
    }
}

/// The lines from an offset on are the lines of what stands behind it.
proof fn lemma_lines_shift(s: Seq<u8>, k: int)
    requires
        0 <= k <= s.len(),
    ensures
        lines_from(s, k) == lines(s.skip(k)),
    decreases s.len() - k,
{
    let t = s.skip(k);
    lemma_find_shift(s, crlf(), k);
    lemma_find_from(s, crlf(), k);
    match find_from(s, crlf(), k) {
        Some(i) => {
            lemma_lines_shift(s, i + 2);
            lemma_lines_shift(t, i - k + 2);
            assert(t.skip(i - k + 2) =~= s.skip(i + 2));
            assert(t.subrange(0, i - k) =~= s.subrange(k, i));
        },
        None => {
            assert(t.subrange(0, t.len() as int) =~= s.subrange(k, s.len() as int));
        },
    }
}

proof fn lemma_first_line(l: Seq<u8>, u: Seq<u8>)
    requires
        unbroken(l),
    ensures
        lines(l + crlf() + u) == seq![l] + lines(u),
{
    let s = l + crlf() + u;
    let n = l.len() as int;
    lemma_occurs_break(s, n);
    assert forall|j: int| 0 <= j < n implies !occurs_at(s, crlf(), j) by {
        lemma_occurs_break(s, j);
        lemma_occurs_break(l, j);
        if j + 1 < n {
            assert(s[j] == l[j]);
            assert(s[j + 1] == l[j + 1]);
            assert(!occurs_at(l, crlf(), j));
        } else {
            assert(s[j + 1] == 13);
        }
    }
    lemma_find_from_is(s, crlf(), 0, n);
    lemma_lines_shift(s, n + 2);
    assert(s.skip(n + 2) =~= u);
    assert(s.subrange(0, n) =~= l);
}

proof fn lemma_join_front(l: Seq<u8>, rest: Seq<Seq<u8>>)
    ensures
        join_lines(seq![l] + rest) == l + crlf() + join_lines(rest),
    decreases rest.len(),
{
    let all = seq![l] + rest;
    if rest.len() == 0 {
        assert(all.drop_last() =~= Seq::<Seq<u8>>::empty());
        assert(join_lines(all.drop_last()) =~= Seq::<u8>::empty());
        assert(join_lines(all) =~= l + crlf());
        assert(join_lines(rest) =~= Seq::<u8>::empty());
        assert(l + crlf() + join_lines(rest) =~= l + crlf());
    } else {
        assert(all.drop_last() =~= seq![l] + rest.drop_last());
        assert(all.last() == rest.last());
        lemma_join_front(l, rest.drop_last());
        assert(join_lines(all) =~= l + crlf() + join_lines(rest));
    }
}

/// Joining lines and splitting the text again gives the lines back,
/// provided no line holds a line break. What follows the joined lines is
/// split on its own.
pub proof fn lemma_lines_of_joined(ls: Seq<Seq<u8>>, tail: Seq<u8>)
    requires
        forall|k: int| 0 <= k < ls.len() ==> unbroken(#[trigger] ls[k]),
    ensures
        lines(join_lines(ls) + tail) == ls + lines(tail),
    decreases ls.len(),
{
    if ls.len() == 0 {
        assert(join_lines(ls) + tail =~= tail);
        assert(ls + lines(tail) =~= lines(tail));
    } else {
        let l = ls[0];
        let rest = ls.skip(1);
        assert(ls =~= seq![l] + rest);
        lemma_join_front(l, rest);
        assert forall|k: int| 0 <= k < rest.len() implies unbroken(#[trigger] rest[k]) by {
            assert(rest[k] == ls[k + 1]);
        }
        lemma_lines_of_joined(rest, tail);
        lemma_first_line(l, join_lines(rest) + tail);
        assert(join_lines(ls) + tail =~= l + crlf() + (join_lines(rest) + tail));
        assert(seq![l] + (rest + lines(tail)) =~= ls + lines(tail));
    }
}

/// No line of a text holds a line break.
pub proof fn lemma_lines_unbroken(h: Seq<u8>, start: int, k: int)
    requires
        0 <= start <= h.len(),
        0 <= k < lines_from(h, start).len(),
    ensures
        unbroken(lines_from(h, start)[k]),
    decreases h.len() - start,
{
    lemma_find_from(h, crlf(), start);
    match find_from(h, crlf(), start) {
        Some(i) => {
            if k == 0 {
                let line = h.subrange(start, i);
                assert(lines_from(h, start)[0] == line);
                assert forall|j: int| !occurs_at(line, crlf(), j) by {
                    lemma_occurs_break(line, j);
                    lemma_occurs_break(h, start + j);
                    if 0 <= j && j + 2 <= line.len() {
                        assert(line[j] == h[start + j]);
                        assert(line[j + 1] == h[start + j + 1]);
                        assert(!occurs_at(h, crlf(), start + j));
                    }
                }
            } else {
                assert(lines_from(h, start)[k] == lines_from(h, i + 2)[k - 1]);
                lemma_lines_unbroken(h, i + 2, k - 1);
            }
        },
        None => {
            let line = h.subrange(start, h.len() as int);
            assert(lines_from(h, start)[0] == line);
            assert forall|j: int| !occurs_at(line, crlf(), j) by {
                lemma_occurs_break(line, j);
                lemma_occurs_break(h, start + j);
                if 0 <= j && j + 2 <= line.len() {
                    assert(line[j] == h[start + j]);
                    assert(line[j + 1] == h[start + j + 1]);
                    assert(!occurs_at(h, crlf(), start + j));
                }
            }
        },
    }
}

proof fn lemma_host_line_plain(host: Seq<u8>, port: u16)
    requires
        plain(host),
    ensures
        plain(host_line(host, port)),
{
    lemma_host_text();
    lemma_decimal_value(port as nat);
    let digits = decimal(port as nat);
    assert(plain(text("Host: ")));
    assert(plain(digits)) by {
        assert forall|i: int| 0 <= i < digits.len() implies #[trigger] digits[i] != 13
            && digits[i] != 10 by {
            assert(is_digit(digits[i]));
        }
    }
    assert(plain(seq![COLON]));
    lemma_plain_concat(text("Host: "), host);
    if port == 80 {
        lemma_plain_concat(text("Host: ") + host, Seq::<u8>::empty());
    } else {
        lemma_plain_concat(seq![COLON], digits);
        lemma_plain_concat(text("Host: ") + host, seq![COLON] + digits);
    }
}

/// The text that goes upstream is read as the lines that were written:
/// where method, path and version hold no line break of their own, nor any
/// header line of the client, nor the host (if a `Host` header is to be
/// written), splitting the preamble gives its lines back and then the two
/// empty pieces around the final line break.
pub proof fn lemma_preamble_lines(
    method: Seq<u8>,
    path: Seq<u8>,
    version: Seq<u8>,
    ls: Seq<Seq<u8>>,
    host: Seq<u8>,
    port: u16,
)
    requires
        ls.len() >= 1,
        plain(method),
        plain(path),
        plain(version),
        forall|k: int| 1 <= k < ls.len() ==> unbroken(#[trigger] ls[k]),
        names_host(ls) || plain(host),
    ensures
        lines(upstream_preamble(method, path, version, ls, host, port)) == upstream_lines(
            method,
            path,
            version,
            ls,
            host,
            port,
        ) + seq![Seq::<u8>::empty(), Seq::<u8>::empty()],
{
    let out = upstream_lines(method, path, version, ls, host, port);
    let mid = kept(ls.skip(1));
    assert forall|k: int| 0 <= k < out.len() implies unbroken(#[trigger] out[k]) by {
        if k == 0 {
            assert(plain(seq![SPACE]));
            lemma_plain_concat(method, seq![SPACE]);
            lemma_plain_concat(method + seq![SPACE], path);
            lemma_plain_concat(method + seq![SPACE] + path, seq![SPACE]);
            lemma_plain_concat(method + seq![SPACE] + path + seq![SPACE], version);
            assert(out[0] == start_line(method, path, version));
            lemma_plain_unbroken(out[0]);
        } else if k < 1 + mid.len() {
            assert(out[k] == mid[k - 1]);
            lemma_kept_member(ls.skip(1), k - 1);
            let j = choose|j: int| 0 <= j < ls.skip(1).len() && ls.skip(1)[j] == mid[k - 1];
            assert(ls[j + 1] == mid[k - 1]);
        } else {
            assert(out[k] == host_line(host, port));
            lemma_host_line_plain(host, port);
            lemma_plain_unbroken(out[k]);
        }
    }
    lemma_lines_of_joined(out, crlf());
    // The final line break stands between two empty pieces.
    let none = Seq::<u8>::empty();
    assert(unbroken(none)) by {
        assert forall|i: int| !occurs_at(none, crlf(), i) by {
            lemma_occurs_break(none, i);
        }
    }
    lemma_first_line(none, none);
    assert(none + crlf() + none =~= crlf());
    assert(lines(none) =~= seq![none]) by {
        assert(none.subrange(0, 0) =~= none);
    }
    assert(seq![none] + seq![none] =~= seq![none, none]);
}

/// The lines that go upstream for the request that `raw` starts with,
/// where it is one that is forwarded.
pub open spec fn forward_lines(raw: Seq<u8>) -> Seq<Seq<u8>>
    recommends
        route(raw) is Ok,
{
    let h = raw.subrange(0, header_end(raw).unwrap());
    let (method, uri, version) = request_line(h).unwrap();
    let (authority, path) = forward_parts(uri, lines(h)).unwrap();
    let (host, port) = host_and_port(authority);
    upstream_lines(method, path, version, lines(h), host, port)
}

/// Whatever request is forwarded, the bytes that go upstream are the
/// request line, the header lines and the blank line, and when they are
/// split into lines again none of the lines after the request line starts
/// with `Proxy-Connection:` or `Proxy-Authorization:`, in any case. Where
/// the client named no host, exactly one of them is a `Host` header: the
/// last line before the blank one.
pub proof fn lemma_forwarded_preamble(raw: Seq<u8>)
    requires
        route(raw) is Ok,
        route(raw)->Ok_0 is Forward,
    ensures
        ({
            let preamble = route(raw)->Ok_0->Forward_preamble;
            let none = Seq::<u8>::empty();
            &&& preamble == join_lines(forward_lines(raw)) + crlf()
            &&& lines(preamble) == forward_lines(raw) + seq![none, none]
            &&& forall|k: int|
                1 <= k < lines(preamble).len() ==> !is_hop_line(#[trigger] lines(preamble)[k])
            &&& !names_host(lines(raw.subrange(0, header_end(raw).unwrap()))) ==> forall|k: int|
                1 <= k < lines(preamble).len() ==> (is_host_line(#[trigger] lines(preamble)[k])
                    <==> k == forward_lines(raw).len() - 1)
        }),
{
    lemma_host_text();
    let end = header_end(raw).unwrap();
    lemma_find_from(raw, crate::http::blank_line(), 0);
    let h = raw.subrange(0, end);
    let ls = lines(h);
    lemma_lines_nonempty(h, 0);
    let (method, uri, version) = request_line(h).unwrap();
    let w = words(ls[0]);
    lemma_words_spaceless(ls[0], 0, 0);
    lemma_words_spaceless(ls[0], 0, 1);
    lemma_words_spaceless(ls[0], 0, 2);
    lemma_spaceless_plain(method);
    lemma_spaceless_plain(version);
    let (authority, path) = forward_parts(uri, ls).unwrap();
    let (host, port) = host_and_port(authority);
    // The path is a part of the target, or a lone slash.
    if has_prefix(uri, text("http://")) {
        let rest = uri.skip(7);
        lemma_spaceless_part(uri, 7, uri.len() as int);
        assert(rest =~= uri.subrange(7, uri.len() as int));
        lemma_find_from(rest, seq![SLASH], 0);
        match find(rest, seq![SLASH]) {
            Some(p) => {
                lemma_spaceless_part(rest, p, rest.len() as int);
                assert(rest.skip(p) =~= rest.subrange(p, rest.len() as int));
                lemma_spaceless_part(rest, 0, p);
            },
            None => {
                assert(spaceless(seq![SLASH]));
            },
        }
        lemma_spaceless_plain(path);
        // The host is the authority, or what stands before its first colon.
        lemma_find_from(authority, seq![COLON], 0);
        match find(authority, seq![COLON]) {
            Some(c) => {
                lemma_spaceless_part(authority, 0, c);
            },
            None => {},
        }
        lemma_spaceless_plain(host);
    } else {
        lemma_spaceless_plain(path);
        if !names_host(ls) {
            lemma_first_host_line(ls, 1);
            assert(host_in(ls) is None);
            assert(authority =~= Seq::<u8>::empty());
            lemma_find_from(authority, seq![COLON], 0);
            assert(host =~= Seq::<u8>::empty());
        }
    }
    assert forall|k: int| 1 <= k < ls.len() implies unbroken(#[trigger] ls[k]) by {
        lemma_lines_unbroken(h, 0, k);
    }
    lemma_preamble_lines(method, path, version, ls, host, port);
    lemma_hop_headers_stripped(method, path, version, ls, host, port);
    let out = forward_lines(raw);
    let preamble = route(raw)->Ok_0->Forward_preamble;
    let none = Seq::<u8>::empty();
    assert forall|k: int| 1 <= k < lines(preamble).len() implies !is_hop_line(
        #[trigger] lines(preamble)[k],
    ) by {
        if k < out.len() {
            assert(lines(preamble)[k] == out[k]);
        } else {
            assert(lines(preamble)[k] == none);
        }
    }
    if !names_host(ls) {
        lemma_host_synthesized(method, path, version, ls, host, port);
        assert forall|k: int| 1 <= k < lines(preamble).len() implies (is_host_line(
            #[trigger] lines(preamble)[k],
        ) <==> k == out.len() - 1) by {
            if k < out.len() {
                assert(lines(preamble)[k] == out[k]);
            } else {
                assert(lines(preamble)[k] == none);
            }
        }
    }
}

} // verus!
