use iface_proxy::bytes::{contains_bytes, find_bytes, parse_port_bytes, split_once, trim_bytes};
use iface_proxy::http::{parse_host_from_headers, parse_request_line, split_lines};

/// A small deterministic generator of texts over an alphabet that is rich
/// in separators.
struct Texts {
    state: u64,
}

impl Texts {
    fn next(&mut self) -> u64 {
        self.state = self.state.wrapping_mul(6364136223846793005).wrapping_add(1442695040888963407);
        self.state >> 33
    }

    fn text(&mut self, alphabet: &[u8], max_len: u64) -> String {
        let len = self.next() % (max_len + 1);
        let mut s = String::new();
        for _ in 0..len {
            let i = (self.next() % alphabet.len() as u64) as usize;
            s.push(alphabet[i] as char);
        }
        s
    }
}

#[test]
fn lines_agree_with_the_standard_split() {
    let mut texts = Texts { state: 1 };
    for _ in 0..3000 {
        let s = texts.text(b"ab\r\n\r\n :", 24);
        let expected: Vec<&[u8]> = s.split("\r\n").map(|l| l.as_bytes()).collect();
        assert_eq!(split_lines(s.as_bytes()), expected, "{:?}", s);
    }
}

#[test]
fn request_line_agrees_with_the_standard_split() {
    let mut texts = Texts { state: 2 };
    for _ in 0..3000 {
        let s = texts.text(b"GET/h1 \t\x0b\x0c\r\n ", 24);
        let first = s.split("\r\n").next().unwrap_or("");
        let mut words = first.split_whitespace();
        let expected = match (words.next(), words.next(), words.next()) {
            (Some(m), Some(u), Some(v)) => Some((m.as_bytes(), u.as_bytes(), v.as_bytes())),
            _ => None,
        };
        assert_eq!(parse_request_line(s.as_bytes()).ok(), expected, "{:?}", s);
    }
}

#[test]
fn trimming_agrees_with_the_standard_trim() {
    let mut texts = Texts { state: 3 };
    for _ in 0..3000 {
        let s = texts.text(b"a: \t\x0b\x0c\r\n", 12);
        assert_eq!(trim_bytes(s.as_bytes()), s.trim().as_bytes(), "{:?}", s);
    }
}

#[test]
fn searching_agrees_with_the_standard_find() {
    let mut texts = Texts { state: 4 };
    for _ in 0..3000 {
        let s = texts.text(b"ab:", 16);
        let pat = texts.text(b"ab:", 3);
        if pat.is_empty() {
            continue;
        }
        assert_eq!(find_bytes(s.as_bytes(), pat.as_bytes(), 0), s.find(&pat), "{:?} {:?}", s, pat);
        assert_eq!(contains_bytes(s.as_bytes(), pat.as_bytes()), s.contains(&pat));
        let expected = s.split_once(':').map(|(a, b)| (a.as_bytes(), b.as_bytes()));
        assert_eq!(split_once(s.as_bytes(), b':'), expected, "{:?}", s);
    }
}

#[test]
fn ports_agree_with_the_standard_parse() {
    let mut texts = Texts { state: 5 };
    for _ in 0..5000 {
        let s = texts.text(b"0123456789+- ", 7);
        assert_eq!(parse_port_bytes(s.as_bytes()), s.parse::<u16>().ok(), "{:?}", s);
    }
    for n in 0..=70000u32 {
        let s = n.to_string();
        assert_eq!(parse_port_bytes(s.as_bytes()), s.parse::<u16>().ok());
    }
}

#[test]
fn host_header_agrees_with_a_plain_reading() {
    let mut texts = Texts { state: 6 };
    for _ in 0..3000 {
        let s = texts.text(b"Hhost:OST a\r\n\r\n", 40);
        let expected = s
            .split("\r\n")
            .skip(1)
            .find(|line| line.len() >= 5 && line[..5].eq_ignore_ascii_case("host:"))
            .map(|line| line[5..].trim().as_bytes().to_vec());
        assert_eq!(parse_host_from_headers(s.as_bytes()), expected, "{:?}", s);
    }
}
