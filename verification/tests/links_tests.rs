//! The link encoder/decoder: recognition, code assignment, decoding.

use zettelkasten::links::{LinkError, NamingScheme, ParsedZettel, SpanKind};
use zettelkasten::storage::Zettel;

fn note(body: &str) -> Zettel {
    Zettel { id: 1, path: "home".to_string(), body: body.to_string() }
}

fn parse(body: &str, disallowed: &[char], overlay: bool) -> ParsedZettel {
    ParsedZettel::parse(&note(body), &disallowed.to_vec(), overlay).expect("parse failed")
}

/// Two recognizable spans, reserved `{q,e,c,f,l,s}`: codes `a` and `b`.
#[test]
fn scenario_two_links_codes_a_b() {
    let p = parse(
        "See [config](sys:config) and [home]",
        &['q', 'e', 'c', 'f', 'l', 's'],
        false,
    );
    assert_eq!(p.links.len(), 2);
    assert_eq!(p.link_char_size, 1);
    assert_eq!(p.links[0].code, "a");
    assert_eq!(p.links[0].target, "sys:config");
    assert_eq!(p.links[1].code, "b");
    assert_eq!(p.links[1].target, "home");
    assert_eq!(p.lookup("a"), Some("sys:config".to_string()));
    assert_eq!(p.lookup("b"), Some("home".to_string()));
    assert_eq!(p.lookup("c"), None);
}

/// Few spans: every code is a single letter and all are distinct.
#[test]
fn single_letter_codes_distinct() {
    let p = parse("[one] [two] [three] [four]", &[], false);
    assert_eq!(p.link_char_size, 1);
    assert_eq!(p.links.len(), 4);
    for i in 0..p.links.len() {
        assert_eq!(p.links[i].code.chars().count(), 1);
        for j in 0..p.links.len() {
            if i != j {
                assert_ne!(p.links[i].code, p.links[j].code);
            }
        }
    }
}

/// More spans than letters: every code has two letters, outer index slowest,
/// and decoding any code returns the target recorded at its occurrence.
#[test]
fn two_letter_codes_and_decode() {
    // Alphabet reduced to {x, y}: capacity 4, three spans force length 2.
    let mut reserved: Vec<char> = ('a'..='z').collect();
    reserved.retain(|c| *c != 'x' && *c != 'y');
    let p = parse("[one](1) [two](2) [three](3)", &reserved, false);
    assert_eq!(p.link_char_size, 2);
    assert_eq!(p.links.len(), 3);
    assert_eq!(p.links[0].code, "xx");
    assert_eq!(p.links[1].code, "xy");
    assert_eq!(p.links[2].code, "yx");
    assert_eq!(p.lookup("xx"), Some("1".to_string()));
    assert_eq!(p.lookup("xy"), Some("2".to_string()));
    assert_eq!(p.lookup("yx"), Some("3".to_string()));
    assert_eq!(p.lookup("yy"), None);
    assert_eq!(p.lookup("x"), None);
}

/// Beyond the two-letter capacity the encoder fails explicitly.
#[test]
fn too_many_links_is_explicit() {
    let mut reserved: Vec<char> = ('a'..='z').collect();
    reserved.retain(|c| *c != 'x');
    let r = ParsedZettel::parse(&note("[one] [two]"), &reserved, false);
    match r {
        Err(LinkError::TooManyLinks { count, capacity }) => {
            assert_eq!(count, 2);
            assert_eq!(capacity, 1);
        },
        _ => panic!("expected the code space to be exhausted"),
    }
}

/// Running the encoder twice on unchanged input yields identical output.
#[test]
fn encoder_is_deterministic() {
    let body = "See [config](sys:config) and [home]\n`[escaped]` [third]";
    let reserved = ['q', 'e', 'c', 'f', 'l', 's'];
    let p1 = parse(body, &reserved, true);
    let p2 = parse(body, &reserved, true);
    assert_eq!(p1.link_char_size, p2.link_char_size);
    assert_eq!(p1.links.len(), p2.links.len());
    for (a, b) in p1.links.iter().zip(p2.links.iter()) {
        assert_eq!(a.code, b.code);
        assert_eq!(a.target, b.target);
    }
    assert_eq!(p1.lines.len(), p2.lines.len());
    for (la, lb) in p1.lines.iter().zip(p2.lines.iter()) {
        assert_eq!(la.spans.len(), lb.spans.len());
        for (sa, sb) in la.spans.iter().zip(lb.spans.iter()) {
            assert_eq!(sa.text, sb.text);
            assert_eq!(sa.kind, sb.kind);
        }
    }
}

/// A backtick immediately before `[x]` suppresses recognition.
#[test]
fn backtick_escapes_a_span() {
    let p = parse("`[x]", &[], false);
    assert_eq!(p.links.len(), 0);
    let p = parse("see `[x](y) but [real]", &[], false);
    assert_eq!(p.links.len(), 1);
    assert_eq!(p.links[0].target, "real");
}

/// Without a parenthesized target the label itself is the target.
#[test]
fn label_is_target_without_parens() {
    let p = parse("go to [notes/today] now", &[], false);
    assert_eq!(p.links.len(), 1);
    assert_eq!(p.links[0].target, "notes/today");
}

/// Empty labels and empty targets are not recognized as such.
#[test]
fn empty_label_or_target() {
    let p = parse("[] nothing", &[], false);
    assert_eq!(p.links.len(), 0);
    // An empty target makes the span a plain label span.
    let p = parse("[label]()", &[], false);
    assert_eq!(p.links.len(), 1);
    assert_eq!(p.links[0].target, "label");
}

/// Raw text is kept around the styled link spans, line by line.
#[test]
fn rendered_lines_without_overlay() {
    let p = parse("x[a] y\nplain", &[], false);
    assert_eq!(p.lines.len(), 2);
    let row = &p.lines[0].spans;
    assert_eq!(row.len(), 3);
    assert_eq!(row[0].text, "x");
    assert_eq!(row[0].kind, SpanKind::Raw);
    assert_eq!(row[1].text, "[a]");
    assert_eq!(row[1].kind, SpanKind::Link);
    assert_eq!(row[2].text, " y");
    assert_eq!(row[2].kind, SpanKind::Raw);
    assert_eq!(p.lines[1].spans.len(), 1);
    assert_eq!(p.lines[1].spans[0].text, "plain");
}

/// With the overlay on, the code covers the first characters of the label.
#[test]
fn rendered_lines_with_overlay() {
    let p = parse("See [config](sys:config)", &['q', 'e', 'c', 'f', 'l', 's'], true);
    let row = &p.lines[0].spans;
    assert_eq!(row.len(), 3);
    assert_eq!(row[0].text, "See ");
    assert_eq!(row[1].text, "[a]");
    assert_eq!(row[1].kind, SpanKind::LinkHighlight);
    assert_eq!(row[2].text, "nfig]");
    assert_eq!(row[2].kind, SpanKind::Link);
}

/// The naming scheme hands out codes in order and reports their length.
#[test]
fn naming_scheme_order() {
    let mut single = NamingScheme::single(vec!['a', 'b']);
    assert_eq!(single.link_char_size(), 1);
    assert_eq!(single.next(), Some("a".to_string()));
    assert_eq!(single.next(), Some("b".to_string()));
    assert_eq!(single.next(), None);

    let mut double = NamingScheme::double(vec!['a', 'b']);
    assert_eq!(double.link_char_size(), 2);
    assert_eq!(double.next(), Some("aa".to_string()));
    assert_eq!(double.next(), Some("ab".to_string()));
    assert_eq!(double.next(), Some("ba".to_string()));
    assert_eq!(double.next(), Some("bb".to_string()));
    assert_eq!(double.next(), None);
}

/// Carriage returns before a newline belong to the line break, not the line.
#[test]
fn crlf_lines() {
    let p = parse("a[x]\r\nb[y]", &[], false);
    assert_eq!(p.lines.len(), 2);
    assert_eq!(p.lines[0].spans[0].text, "a");
    assert_eq!(p.lines[0].spans[1].text, "[x]");
    assert_eq!(p.links.len(), 2);
}

/// An empty body parses to no lines and no links.
#[test]
fn empty_body() {
    let p = parse("", &[], false);
    assert_eq!(p.links.len(), 0);
    assert_eq!(p.lines.len(), 0);
    assert_eq!(p.link_char_size, 1);
}

/// Exactly as many spans as letters still uses single-letter codes; one more
/// switches the whole document to two letters.
#[test]
fn code_length_boundary() {
    let mut reserved: Vec<char> = ('a'..='z').collect();
    reserved.retain(|c| *c != 'x' && *c != 'y');
    let p = parse("[one] [two]", &reserved, false);
    assert_eq!(p.link_char_size, 1);
    assert_eq!(p.links[0].code, "x");
    assert_eq!(p.links[1].code, "y");

    let p = parse("[one] [two] [three]", &reserved, false);
    assert_eq!(p.link_char_size, 2);
    assert_eq!(p.links[0].code, "xx");
}
