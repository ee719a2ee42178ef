use citemark::bib::BibEntry;
use citemark::bib::BibTag;
use citemark::bib::Bibliography;
use citemark::cite::RenderError;
use citemark::metadata::metadata;
use citemark::metadata::Metadata;
use citemark::summary::Abstract;
use citemark::summary::AbstractPart;
use citemark::summary::Format;

fn tag(name: &str, value: &str) -> BibTag {
    BibTag { name: name.as_bytes().to_vec(), value: value.as_bytes().to_vec() }
}

fn entry(key: &str, tags: Vec<BibTag>) -> BibEntry {
    BibEntry { key: key.as_bytes().to_vec(), tags }
}

fn empty_record() -> Metadata {
    Metadata {
        authors: None,
        title: None,
        first_page: None,
        last_page: None,
        summary: None,
        keywords: None,
        section: None,
        number: None,
        semester: None,
        year: None,
    }
}

const P6_INPUT: &[u8] =
    b"authors=given>A,family>B\\par title=T\\par abstract=See \\cite{K}.\\par year=2022";

fn p6_bibliography() -> Bibliography {
    Bibliography { entries: vec![entry("K", vec![tag("author", "Smith"), tag("year", "1999")])] }
}

#[test]
fn end_to_end() {
    let input = P6_INPUT.to_vec();
    let (record, pos) = metadata(&input, 0).unwrap();
    assert!(pos == input.len());

    let bib = p6_bibliography();
    let date = b"2020-01-01T00:00:00+00:00".to_vec();
    let output = record.wtite_to(&bib, &date).unwrap();

    let expected = b"---\n\
title: \"T\"\n\
description: \"See (SMITH, 1999).\"\n\
date: 2020-01-01T00:00:00+00:00\n\
authors:\n\
- given: A\n  family: B\n\
year: 2022\n\
---\n\n\
**Resumo:** See (SMITH, 1999).\n\n";
    assert_eq!(String::from_utf8_lossy(&output), String::from_utf8_lossy(expected));
}

#[test]
fn missing_citation_key_aborts_the_render() {
    let input = P6_INPUT.to_vec();
    let (record, _) = metadata(&input, 0).unwrap();

    let bib = Bibliography::new();
    let date = b"2020-01-01T00:00:00+00:00".to_vec();

    let result = record.wtite_to(&bib, &date);
    assert_eq!(result, Err(RenderError::UnresolvedCitation(b"K".to_vec())));
}

#[test]
fn rendering_twice_is_byte_identical() {
    let input = P6_INPUT.to_vec();
    let (record, _) = metadata(&input, 0).unwrap();

    let bib = p6_bibliography();
    let date = b"2020-01-01T00:00:00+00:00".to_vec();

    let first = record.wtite_to(&bib, &date).unwrap();
    let second = record.wtite_to(&bib, &date).unwrap();
    assert_eq!(first, second);
}

fn text_only_record(len: usize) -> Metadata {
    let mut m = empty_record();
    m.summary = Some(Abstract { parts: vec![AbstractPart::Text(vec![b'a'; len])] });
    m
}

fn description_of(output: &[u8]) -> Vec<u8> {
    let s = output;
    let start = b"---\ndescription: \"".len();
    let end = s.windows(2).position(|w| w == b"\"\n").unwrap();
    s[start..end].to_vec()
}

#[test]
fn long_description_is_truncated_to_143_bytes() {
    let bib = Bibliography::new();
    let date = b"D".to_vec();

    let output = text_only_record(144).wtite_to(&bib, &date).unwrap();
    let desc = description_of(&output);
    assert_eq!(desc.len(), 143);
    let mut expected = vec![b'a'; 140];
    expected.extend_from_slice(b"...");
    assert_eq!(desc, expected);
}

#[test]
fn description_of_exactly_143_bytes_is_untouched() {
    let bib = Bibliography::new();
    let date = b"D".to_vec();

    let output = text_only_record(143).wtite_to(&bib, &date).unwrap();
    assert_eq!(description_of(&output), vec![b'a'; 143]);
}

#[test]
fn description_of_exactly_142_bytes_is_untouched() {
    let bib = Bibliography::new();
    let date = b"D".to_vec();

    let output = text_only_record(142).wtite_to(&bib, &date).unwrap();
    assert_eq!(description_of(&output), vec![b'a'; 142]);
}

fn render_single(part: AbstractPart, bib: &Bibliography, format: Format) -> Vec<u8> {
    let abs = Abstract { parts: vec![part] };
    abs.write_to(bib, format).unwrap()
}

#[test]
fn citeyear_without_year_tag_renders_sd() {
    let bib = Bibliography { entries: vec![entry("K", vec![tag("author", "Smith")])] };

    let out = render_single(AbstractPart::Citeyear(b"K".to_vec()), &bib, Format::PlainText);
    assert_eq!(out, b"(s.d.)".to_vec());
}

#[test]
fn cite_without_author_tag_falls_back_to_title() {
    let bib = Bibliography {
        entries: vec![entry("K", vec![tag("title", "Os sertões"), tag("year", "1902")])],
    };

    let out = render_single(AbstractPart::Cite(b"K".to_vec()), &bib, Format::PlainText);
    assert_eq!(out, b"(OS, 1902)".to_vec());
}

#[test]
fn cite_with_four_authors_renders_et_al() {
    let authors = "Silva, A. AND Souza, B. AND Lima, C. AND Costa, D.";
    let bib = Bibliography {
        entries: vec![entry("K", vec![tag("author", authors), tag("year", "1999")])],
    };

    let plain = render_single(AbstractPart::Cite(b"K".to_vec()), &bib, Format::PlainText);
    assert_eq!(plain, b"(SILVA, ET AL., 1999)".to_vec());

    let md = render_single(AbstractPart::Cite(b"K".to_vec()), &bib, Format::Markdown);
    assert_eq!(md, b"(SILVA, _ET AL._, 1999)".to_vec());
}

#[test]
fn cite_with_two_authors_joins_surnames() {
    let bib = Bibliography {
        entries: vec![entry("K", vec![tag("author", "Silva, A. AND Souza, B."), tag("year", "1999")])],
    };

    let out = render_single(AbstractPart::Cite(b"K".to_vec()), &bib, Format::PlainText);
    assert_eq!(out, b"(SILVA; SOUZA, 1999)".to_vec());
}

#[test]
fn later_record_wins_on_duplicate_keys() {
    let bib = Bibliography {
        entries: vec![
            entry("K", vec![tag("year", "1990")]),
            entry("K", vec![tag("year", "2005")]),
        ],
    };

    let out = render_single(AbstractPart::Citeyear(b"K".to_vec()), &bib, Format::PlainText);
    assert_eq!(out, b"(2005)".to_vec());
}

#[test]
fn plain_text_abstract_round_trips() {
    let input = b"no commands here, just text.".to_vec();
    let (abs, pos) = citemark::summary::parse_abstract(&input, 0);
    assert!(pos == input.len());
    assert_eq!(abs.parts.len(), 1);

    let bib = Bibliography::new();
    let out = abs.write_to(&bib, Format::PlainText).unwrap();
    assert_eq!(out, input);
}

#[test]
fn italic_markup_depends_on_the_mode() {
    let text = b"x".to_vec();
    assert_eq!(Format::Markdown.italic(&text), b"_x_".to_vec());
    assert_eq!(Format::PlainText.italic(&text), b"x".to_vec());
}

#[test]
fn quotes_are_escaped_in_front_matter() {
    let mut m = empty_record();
    m.title = Some(b"a\"b".to_vec());
    let bib = Bibliography::new();
    let date = b"D".to_vec();

    let output = m.wtite_to(&bib, &date).unwrap();
    let expected = b"---\ntitle: \"a\\\"b\"\ndate: D\n---\n\n";
    assert_eq!(output, expected.to_vec());
}

#[test]
fn keywords_are_split_trimmed_and_kept_raw_in_the_body() {
    let mut m = empty_record();
    m.keywords = Some(b" One. Two aqui .. Three.".to_vec());
    let bib = Bibliography::new();
    let date = b"D".to_vec();

    let output = m.wtite_to(&bib, &date).unwrap();
    let expected = b"---\n\
date: D\n\
tags:\n\
- One\n\
- Two aqui\n\
- Three\n\
---\n\n\
**Palavras-chave:**  One. Two aqui .. Three.\n";
    assert_eq!(String::from_utf8_lossy(&output), String::from_utf8_lossy(expected));
}

#[test]
fn pages_need_both_ends() {
    let mut m = empty_record();
    m.first_page = Some(b"15".to_vec());
    let bib = Bibliography::new();
    let date = b"D".to_vec();
    let output = m.wtite_to(&bib, &date).unwrap();
    assert_eq!(output, b"---\ndate: D\n---\n\n".to_vec());

    m.last_page = Some(b"29".to_vec());
    let output = m.wtite_to(&bib, &date).unwrap();
    assert_eq!(output, b"---\ndate: D\npages: [15, 29]\n---\n\n".to_vec());
}

#[test]
fn series_and_number_come_from_the_number_field() {
    let mut m = empty_record();
    m.number = Some(b"5".to_vec());
    let bib = Bibliography::new();
    let date = b"D".to_vec();
    let output = m.wtite_to(&bib, &date).unwrap();
    assert_eq!(output, b"---\ndate: D\nseries: [n5]\nnumber: 5\n---\n\n".to_vec());
}

#[test]
fn timestamp_is_stamped_as_rfc3339() {
    let mut m = empty_record();
    m.year = Some(b"2022".to_vec());
    let bib = Bibliography::new();

    let output = m.wtite_to_at(&bib, 0, 0).unwrap();
    assert_eq!(
        output,
        b"---\ndate: 1970-01-01T00:00:00+00:00\nyear: 2022\n---\n\n".to_vec()
    );
}

#[test]
fn unrepresentable_timestamp_is_rejected() {
    let m = empty_record();
    let bib = Bibliography::new();

    assert_eq!(m.wtite_to_at(&bib, i64::MIN, 0), Err(RenderError::InvalidTimestamp));
}

#[test]
fn nanoseconds_render_as_fractional_seconds() {
    let mut m = empty_record();
    m.year = Some(b"2022".to_vec());
    let bib = Bibliography::new();

    let output = m.wtite_to_at(&bib, 0, 500_000_000).unwrap();
    assert_eq!(
        output,
        b"---\ndate: 1970-01-01T00:00:00.500+00:00\nyear: 2022\n---\n\n".to_vec()
    );
}

#[test]
fn invalid_nanoseconds_are_rejected() {
    let m = empty_record();
    let bib = Bibliography::new();

    assert_eq!(m.wtite_to_at(&bib, 0, 2_000_000_000), Err(RenderError::InvalidTimestamp));
}

#[test]
fn non_ascii_surnames_are_upper_cased() {
    let bib = Bibliography {
        entries: vec![entry(
            "K",
            vec![tag("author", "C\u{e1}dima, Francisco Rui"), tag("year", "2001")],
        )],
    };

    let out = render_single(AbstractPart::Cite(b"K".to_vec()), &bib, Format::PlainText);
    assert_eq!(String::from_utf8_lossy(&out), "(C\u{c1}DIMA, 2001)");
}

#[test]
fn non_ascii_whitespace_is_trimmed_from_the_year() {
    let bib = Bibliography {
        entries: vec![entry(
            "K",
            vec![tag("author", "Smith"), tag("year", "\u{a0}1999 ")],
        )],
    };

    let out = render_single(AbstractPart::Cite(b"K".to_vec()), &bib, Format::PlainText);
    assert_eq!(out, b"(SMITH, 1999)".to_vec());
}
