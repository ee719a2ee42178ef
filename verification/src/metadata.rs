//! The top-level metadata-record parser and renderer: an unordered set
//! of `key=value` fields terminated by `\par` markers, rendered as a
//! YAML front-matter block plus a Markdown body.

use vstd::prelude::*;

use crate::author::spec_author;
use crate::author::spec_author_list;
use crate::author::author;
use crate::author::author_list;
use crate::author::views_of;
use crate::author::Author;
use crate::author::AuthorV;
use crate::lit::kw_abstract;
use crate::lit::kw_abstract_v;
use crate::lit::kw_authors;
use crate::lit::kw_authors_v;
use crate::lit::kw_first_page;
use crate::lit::kw_first_page_v;
use crate::lit::kw_keywords;
use crate::lit::kw_keywords_v;
use crate::lit::kw_last_page;
use crate::lit::kw_last_page_v;
use crate::lit::kw_number;
use crate::lit::kw_number_v;
use crate::lit::kw_section;
use crate::lit::kw_section_v;
use crate::lit::kw_semester;
use crate::lit::kw_semester_v;
use crate::lit::kw_title;
use crate::lit::kw_title_v;
use crate::lit::kw_year;
use crate::lit::kw_year_v;
use crate::lit::par_tag;
use crate::lit::par_tag_v;
use crate::paragraph::paragraph;
use crate::paragraph::spec_paragraph;
use crate::space::space;
use crate::summary::parse_abstract;
use crate::summary::spec_abstract;
use crate::summary::Abstract;
use crate::summary::PartV;
use crate::bib::BibEntryV;
use crate::bib::Bibliography;
use crate::cite::first_unresolved;
use crate::cite::lemma_render_parts_resolved;
use crate::cite::spec_render_parts;
use crate::cite::RenderError;
use crate::date::format_timestamp;
use crate::date::iso_datetime_of;
use crate::date::ts_representable;
use crate::lit::authors_label;
use crate::lit::authors_label_v;
use crate::lit::bracket_nl;
use crate::lit::bracket_nl_v;
use crate::lit::close_fence;
use crate::lit::close_fence_v;
use crate::lit::comma_sep;
use crate::lit::comma_sep_v;
use crate::lit::dash_item;
use crate::lit::dash_item_v;
use crate::lit::date_label;
use crate::lit::date_label_v;
use crate::lit::desc_label;
use crate::lit::desc_label_v;
use crate::lit::dot_pat;
use crate::lit::dot_pat_v;
use crate::lit::ellipsis;
use crate::lit::ellipsis_v;
use crate::lit::family_item;
use crate::lit::family_item_v;
use crate::lit::given_item;
use crate::lit::given_item_v;
use crate::lit::nl;
use crate::lit::nl2;
use crate::lit::nl2_v;
use crate::lit::nl_v;
use crate::lit::number_label;
use crate::lit::number_label_v;
use crate::lit::open_fence;
use crate::lit::open_fence_v;
use crate::lit::pages_label;
use crate::lit::pages_label_v;
use crate::lit::palavras_label;
use crate::lit::palavras_label_v;
use crate::lit::quote_nl;
use crate::lit::quote_nl_v;
use crate::lit::resumo_label;
use crate::lit::resumo_label_v;
use crate::lit::section_label;
use crate::lit::section_label_v;
use crate::lit::semester_label;
use crate::lit::semester_label_v;
use crate::lit::series_label;
use crate::lit::series_label_v;
use crate::lit::title_label;
use crate::lit::title_label_v;
use crate::lit::year_label;
use crate::lit::year_label_v;
use crate::summary::Format;
use crate::text::byte_seqs;
use crate::text::esc_push;
use crate::text::esc_spec;
use crate::text::match_at;
use crate::text::matches_at;
use crate::text::push_all;
use crate::text::split_by;
use crate::text::split_pat;
use crate::text::ws_end;
use crate::unicode::trim;
use crate::unicode::trim_of;
use crate::text::B_EQ;

verus! {

/// The aggregate record: each field present or absent; absent fields
/// are omitted from rendered output.  The abstract is held in
/// `summary`.
#[derive(Debug, PartialEq, Eq)]
pub struct Metadata {
    pub authors: Option<Vec<Author>>,
    pub title: Option<Vec<u8>>,
    pub first_page: Option<Vec<u8>>,
    pub last_page: Option<Vec<u8>>,
    pub summary: Option<Abstract>,
    pub keywords: Option<Vec<u8>>,
    pub section: Option<Vec<u8>>,
    pub number: Option<Vec<u8>>,
    pub semester: Option<Vec<u8>>,
    pub year: Option<Vec<u8>>,
}

/// The mathematical value of a [`Metadata`].
pub struct MetadataV {
    pub authors: Option<Seq<AuthorV>>,
    pub title: Option<Seq<u8>>,
    pub first_page: Option<Seq<u8>>,
    pub last_page: Option<Seq<u8>>,
    pub summary: Option<Seq<PartV>>,
    pub keywords: Option<Seq<u8>>,
    pub section: Option<Seq<u8>>,
    pub number: Option<Seq<u8>>,
    pub semester: Option<Seq<u8>>,
    pub year: Option<Seq<u8>>,
}

impl View for Metadata {
    type V = MetadataV;

    open spec fn view(&self) -> MetadataV {
        MetadataV {
            authors: match self.authors {
                Some(v) => Some(views_of(v@)),
                None => None,
            },
            title: match self.title {
                Some(v) => Some(v@),
                None => None,
            },
            first_page: match self.first_page {
                Some(v) => Some(v@),
                None => None,
            },
            last_page: match self.last_page {
                Some(v) => Some(v@),
                None => None,
            },
            summary: match self.summary {
                Some(a) => Some(a@),
                None => None,
            },
            keywords: match self.keywords {
                Some(v) => Some(v@),
                None => None,
            },
            section: match self.section {
                Some(v) => Some(v@),
                None => None,
            },
            number: match self.number {
                Some(v) => Some(v@),
                None => None,
            },
            semester: match self.semester {
                Some(v) => Some(v@),
                None => None,
            },
            year: match self.year {
                Some(v) => Some(v@),
                None => None,
            },
        }
    }
}

/// The record with every field absent.
pub open spec fn empty_meta() -> MetadataV {
    MetadataV {
        authors: None,
        title: None,
        first_page: None,
        last_page: None,
        summary: None,
        keywords: None,
        section: None,
        number: None,
        semester: None,
        year: None,
    }
}

impl Default for Metadata {
    /// The record with every field absent.
    fn default() -> (r: Self)
        ensures
            r@ == empty_meta(),
    {
        Metadata {
            authors: None,
            title: None,
            first_page: None,
            last_page: None,
            summary: None,
            keywords: None,
            section: None,
            number: None,
            semester: None,
            year: None,
        }
    }
}

/// The fixed set of field keywords, and the bare `\par` marker that is
/// consumed and ignored between fields.
#[derive(Debug, PartialEq, Eq, Clone, Copy)]
pub enum FieldKey {
    Authors,
    Title,
    FirstPage,
    LastPage,
    Summary,
    Keywords,
    Section,
    Number,
    Semester,
    Year,
    Par,
}

/// Which field keyword (or bare `\par` marker) stands at `i`, tried in
/// the grammar's fixed order, and the position after it.
pub open spec fn spec_key(s: Seq<u8>, i: int) -> Option<(FieldKey, int)> {
    if matches_at(s, i, kw_authors()) {
        Some((FieldKey::Authors, i + kw_authors().len() as int))
    } else if matches_at(s, i, kw_title()) {
        Some((FieldKey::Title, i + kw_title().len() as int))
    } else if matches_at(s, i, kw_first_page()) {
        Some((FieldKey::FirstPage, i + kw_first_page().len() as int))
    } else if matches_at(s, i, kw_last_page()) {
        Some((FieldKey::LastPage, i + kw_last_page().len() as int))
    } else if matches_at(s, i, kw_abstract()) {
        Some((FieldKey::Summary, i + kw_abstract().len() as int))
    } else if matches_at(s, i, kw_keywords()) {
        Some((FieldKey::Keywords, i + kw_keywords().len() as int))
    } else if matches_at(s, i, kw_section()) {
        Some((FieldKey::Section, i + kw_section().len() as int))
    } else if matches_at(s, i, kw_number()) {
        Some((FieldKey::Number, i + kw_number().len() as int))
    } else if matches_at(s, i, kw_semester()) {
        Some((FieldKey::Semester, i + kw_semester().len() as int))
    } else if matches_at(s, i, kw_year()) {
        Some((FieldKey::Year, i + kw_year().len() as int))
    } else if matches_at(s, i, par_tag()) {
        Some((FieldKey::Par, i + par_tag().len() as int))
    } else {
        None
    }
}

/// The assignment divisor after a field keyword: whitespace, `=`,
/// whitespace.  Its absence is a hard grammar error.
pub open spec fn spec_divisor(s: Seq<u8>, i: int) -> Option<int> {
    let d = ws_end(s, i);
    if d < s.len() && s[d] == B_EQ {
        Some(ws_end(s, d + 1))
    } else {
        None
    }
}

/// One field's value parsed at `v` and stored into `acc` (last
/// occurrence of a key wins).  `None` is a hard grammar error.
pub open spec fn spec_field(s: Seq<u8>, v: int, k: FieldKey, acc: MetadataV) -> Option<
    (MetadataV, int),
> {
    match k {
        FieldKey::Authors => if spec_author(s, v) is None {
            None
        } else {
            let (aus, q) = spec_author_list(s, v);
            let (b, w) = spec_paragraph(s, q);
            Some((MetadataV { authors: Some(aus), ..acc }, w))
        },
        FieldKey::Summary => {
            let (ps, q) = spec_abstract(s, v);
            let (b, w) = spec_paragraph(s, q);
            Some((MetadataV { summary: Some(ps), ..acc }, w))
        },
        FieldKey::Title => {
            let (b, w) = spec_paragraph(s, v);
            Some((MetadataV { title: Some(b), ..acc }, w))
        },
        FieldKey::FirstPage => {
            let (b, w) = spec_paragraph(s, v);
            Some((MetadataV { first_page: Some(b), ..acc }, w))
        },
        FieldKey::LastPage => {
            let (b, w) = spec_paragraph(s, v);
            Some((MetadataV { last_page: Some(b), ..acc }, w))
        },
        FieldKey::Keywords => {
            let (b, w) = spec_paragraph(s, v);
            Some((MetadataV { keywords: Some(b), ..acc }, w))
        },
        FieldKey::Section => {
            let (b, w) = spec_paragraph(s, v);
            Some((MetadataV { section: Some(b), ..acc }, w))
        },
        FieldKey::Number => {
            let (b, w) = spec_paragraph(s, v);
            Some((MetadataV { number: Some(b), ..acc }, w))
        },
        FieldKey::Semester => {
            let (b, w) = spec_paragraph(s, v);
            Some((MetadataV { semester: Some(b), ..acc }, w))
        },
        FieldKey::Year => {
            let (b, w) = spec_paragraph(s, v);
            Some((MetadataV { year: Some(b), ..acc }, w))
        },
        FieldKey::Par => None,
    }
}

/// The record grammar from `i` with fields accumulated in `acc`:
/// repeatedly skip whitespace, match a keyword or a bare `\par`, and
/// parse the field's value; stop (without error) at the first position
/// where no keyword matches.  `None` is a hard grammar error: a
/// recognised keyword not followed by a valid divisor or value.
pub open spec fn spec_metadata(s: Seq<u8>, i: int, acc: MetadataV) -> Option<(MetadataV, int)>
    decreases s.len() - i,
{
    let j = ws_end(s, i);
    match spec_key(s, j) {
        None => Some((acc, i)),
        Some((k, p)) => {
            if k is Par {
                if i < p <= s.len() {
                    spec_metadata(s, p, acc)
                } else {
                    Some((acc, i))
                }
            } else {
                match spec_divisor(s, p) {
                    None => None,
                    Some(v) => match spec_field(s, v, k, acc) {
                        None => None,
                        Some((acc2, w)) => {
                            if i < w <= s.len() {
                                spec_metadata(s, w, acc2)
                            } else {
                                Some((acc2, w))
                            }
                        },
                    },
                }
            }
        },
    }
}

/// Match one field keyword or the bare `\par` marker.
fn field_key(input: &Vec<u8>, pos: usize) -> (r: Option<(FieldKey, usize)>)
    requires
        pos <= input@.len(),
    ensures
        r is Some <==> spec_key(input@, pos as int) is Some,
        r matches Some((k, e)) ==> spec_key(input@, pos as int) == Some((k, e as int)),
        r matches Some((k, e)) ==> pos < e <= input@.len(),
{
    let n = input.len();
    let kw = kw_authors_v();
    if match_at(input, pos, &kw) {
        assert(pos + 7 <= n);
        return Some((FieldKey::Authors, pos + 7));
    }
    let kw = kw_title_v();
    if match_at(input, pos, &kw) {
        assert(pos + 5 <= n);
        return Some((FieldKey::Title, pos + 5));
    }
    let kw = kw_first_page_v();
    if match_at(input, pos, &kw) {
        assert(pos + 10 <= n);
        return Some((FieldKey::FirstPage, pos + 10));
    }
    let kw = kw_last_page_v();
    if match_at(input, pos, &kw) {
        assert(pos + 9 <= n);
        return Some((FieldKey::LastPage, pos + 9));
    }
    let kw = kw_abstract_v();
    if match_at(input, pos, &kw) {
        assert(pos + 8 <= n);
        return Some((FieldKey::Summary, pos + 8));
    }
    let kw = kw_keywords_v();
    if match_at(input, pos, &kw) {
        assert(pos + 8 <= n);
        return Some((FieldKey::Keywords, pos + 8));
    }
    let kw = kw_section_v();
    if match_at(input, pos, &kw) {
        assert(pos + 7 <= n);
        return Some((FieldKey::Section, pos + 7));
    }
    let kw = kw_number_v();
    if match_at(input, pos, &kw) {
        assert(pos + 6 <= n);
        return Some((FieldKey::Number, pos + 6));
    }
    let kw = kw_semester_v();
    if match_at(input, pos, &kw) {
        assert(pos + 8 <= n);
        return Some((FieldKey::Semester, pos + 8));
    }
    let kw = kw_year_v();
    if match_at(input, pos, &kw) {
        assert(pos + 4 <= n);
        return Some((FieldKey::Year, pos + 4));
    }
    let kw = par_tag_v();
    if match_at(input, pos, &kw) {
        assert(pos + 4 <= n);
        return Some((FieldKey::Par, pos + 4));
    }
    None
}

/// Parse the assignment divisor: whitespace, `=`, whitespace.
fn divisor(input: &Vec<u8>, pos: usize) -> (r: Option<usize>)
    requires
        pos <= input@.len(),
    ensures
        r is Some <==> spec_divisor(input@, pos as int) is Some,
        r matches Some(v) ==> spec_divisor(input@, pos as int) == Some(v as int),
        r matches Some(v) ==> pos <= v <= input@.len(),
{
    let d = space(input, pos);
    if d < input.len() && input[d] == B_EQ {
        Some(space(input, d + 1))
    } else {
        None
    }
}

/// Parse a whole metadata record, starting from the empty record.
/// Stops without error where no field keyword matches; fails where a
/// recognised keyword is not followed by a valid divisor or value.
pub fn metadata(input: &Vec<u8>, pos: usize) -> (r: Option<(Metadata, usize)>)
    requires
        pos <= input@.len(),
    ensures
        r is Some <==> spec_metadata(input@, pos as int, empty_meta()) is Some,
        r matches Some((m, e)) ==> spec_metadata(input@, pos as int, empty_meta()) == Some(
            (m@, e as int),
        ),
        r matches Some((m, e)) ==> pos <= e <= input@.len(),
{
    let mut m = Metadata::default();
    let mut cur = pos;
    loop
        invariant_except_break
            pos <= cur <= input@.len(),
            spec_metadata(input@, pos as int, empty_meta()) == spec_metadata(
                input@,
                cur as int,
                m@,
            ),
        ensures
            pos <= cur <= input@.len(),
            spec_metadata(input@, pos as int, empty_meta()) == Some((m@, cur as int)),
        decreases input@.len() - cur,
    {
        let j = space(input, cur);
        let key = field_key(input, j);
        match key {
            None => {
                break ;
            },
            Some((k, p)) => {
                if let FieldKey::Par = k {
                    cur = p;
                } else {
                    let v = match divisor(input, p) {
                        Some(v) => v,
                        None => {
                            return None;
                        },
                    };
                    match k {
                        FieldKey::Authors => {
                            match author(input, v) {
                                Some(_) => {},
                                None => {
                                    return None;
                                },
                            }
                            let (aus, q) = author_list(input, v);
                            let (_b, w) = paragraph(input, q);
                            proof {
                                assert(spec_field(input@, v as int, k, m@) matches Some((a2, w2))
                                    && a2 == (MetadataV { authors: Some(views_of(aus@)), ..m@ })
                                    && w2 == w as int);
                            }
                            m.authors = Some(aus);
                            cur = w;
                        },
                        FieldKey::Summary => {
                            let (ps, q) = parse_abstract(input, v);
                            let (_b, w) = paragraph(input, q);
                            m.summary = Some(ps);
                            cur = w;
                        },
                        FieldKey::Title => {
                            let (b, w) = paragraph(input, v);
                            m.title = Some(b);
                            cur = w;
                        },
                        FieldKey::FirstPage => {
                            let (b, w) = paragraph(input, v);
                            m.first_page = Some(b);
                            cur = w;
                        },
                        FieldKey::LastPage => {
                            let (b, w) = paragraph(input, v);
                            m.last_page = Some(b);
                            cur = w;
                        },
                        FieldKey::Keywords => {
                            let (b, w) = paragraph(input, v);
                            m.keywords = Some(b);
                            cur = w;
                        },
                        FieldKey::Section => {
                            let (b, w) = paragraph(input, v);
                            m.section = Some(b);
                            cur = w;
                        },
                        FieldKey::Number => {
                            let (b, w) = paragraph(input, v);
                            m.number = Some(b);
                            cur = w;
                        },
                        FieldKey::Semester => {
                            let (b, w) = paragraph(input, v);
                            m.semester = Some(b);
                            cur = w;
                        },
                        FieldKey::Year => {
                            let (b, w) = paragraph(input, v);
                            m.year = Some(b);
                            cur = w;
                        },
                        FieldKey::Par => {
                            // the bare marker was handled above
                            proof {
                                assert(false);
                            }
                            return None;
                        },
                    }
                }
            },
        }
    }
    Some((m, cur))
}

/// The rendered description, truncated: over 143 bytes it is cut to
/// 140 bytes and three `.` bytes are appended; at 143 bytes or fewer
/// it is left untouched.  Truncation works on raw bytes.
pub open spec fn truncate_desc(s: Seq<u8>) -> Seq<u8> {
    if s.len() > 143 {
        s.subrange(0, 140) + ellipsis()
    } else {
        s
    }
}

/// Truncation: a rendered description longer than 143 bytes is cut to
/// exactly 143 output bytes (140 of content plus three `.`); one of
/// 143 bytes or fewer is left untouched.
pub proof fn lemma_truncation(s: Seq<u8>)
    ensures
        s.len() > 143 ==> truncate_desc(s).len() == 143 && truncate_desc(s) == s.subrange(0, 140)
            + ellipsis(),
        s.len() <= 143 ==> truncate_desc(s) == s,
{
}

/// Idempotence: the rendered document is a function of the record,
/// the bibliography and the timestamp text alone, so two renders of
/// the same inputs are byte-identical.
pub proof fn lemma_render_deterministic(
    m: MetadataV,
    bib: Seq<BibEntryV>,
    date: Seq<u8>,
    r1: Seq<u8>,
    r2: Seq<u8>,
)
    requires
        spec_render_metadata(m, bib, date) == Some(r1),
        spec_render_metadata(m, bib, date) == Some(r2),
    ensures
        r1 == r2,
{
}

/// The `title` line, when the field is present.
pub open spec fn title_sec(m: MetadataV) -> Seq<u8> {
    match m.title {
        Some(t) => title_label() + esc_spec(t) + quote_nl(),
        None => Seq::empty(),
    }
}

/// The `description` line: the abstract rendered in plain-text mode,
/// truncated, then escaped.
pub open spec fn desc_sec(m: MetadataV, bib: Seq<BibEntryV>) -> Seq<u8> {
    match m.summary {
        Some(ps) => desc_label() + esc_spec(truncate_desc(spec_render_parts(ps, bib, false)->0))
            + quote_nl(),
        None => Seq::empty(),
    }
}

/// The `date` line: the injected timestamp text.
pub open spec fn date_sec(date: Seq<u8>) -> Seq<u8> {
    date_label() + date + nl()
}

/// One author item of the rendered list.
pub open spec fn author_item(a: AuthorV) -> Seq<u8> {
    given_item() + a.given + family_item() + a.family
}

/// The author items in original order.
pub open spec fn authors_items(aus: Seq<AuthorV>) -> Seq<u8>
    decreases aus.len(),
{
    if aus.len() == 0 {
        Seq::empty()
    } else {
        authors_items(aus.drop_last()) + author_item(aus.last())
    }
}

/// The `authors` list, when the field is present.
pub open spec fn authors_sec(m: MetadataV) -> Seq<u8> {
    match m.authors {
        Some(aus) => authors_label() + authors_items(aus) + nl(),
        None => Seq::empty(),
    }
}

/// One tag item: the piece trimmed; an empty piece is dropped.
pub open spec fn tag_item(piece: Seq<u8>) -> Seq<u8> {
    let t = trim_of(piece);
    if t.len() == 0 {
        Seq::empty()
    } else {
        dash_item() + t
    }
}

/// The tag items, one per `.`-separated piece of the keywords field.
pub open spec fn tags_items(pieces: Seq<Seq<u8>>) -> Seq<u8>
    decreases pieces.len(),
{
    if pieces.len() == 0 {
        Seq::empty()
    } else {
        tags_items(pieces.drop_last()) + tag_item(pieces.last())
    }
}

/// The `tags` list, when the keywords field is present.
pub open spec fn tags_sec(m: MetadataV) -> Seq<u8> {
    match m.keywords {
        Some(kw) => crate::lit::tags_label() + tags_items(split_pat(kw, dot_pat())) + nl(),
        None => Seq::empty(),
    }
}

/// The `pages` line, only when both page fields are present.
pub open spec fn pages_sec(m: MetadataV) -> Seq<u8> {
    if m.first_page is Some && m.last_page is Some {
        pages_label() + m.first_page->0 + comma_sep() + m.last_page->0 + bracket_nl()
    } else {
        Seq::empty()
    }
}

/// The `section` line, when the field is present.
pub open spec fn section_sec(m: MetadataV) -> Seq<u8> {
    match m.section {
        Some(v) => section_label() + esc_spec(v) + quote_nl(),
        None => Seq::empty(),
    }
}

/// The `series` and `number` lines, both derived from the `number`
/// field.
pub open spec fn series_sec(m: MetadataV) -> Seq<u8> {
    match m.number {
        Some(v) => series_label() + esc_spec(v) + bracket_nl() + number_label() + esc_spec(v)
            + nl(),
        None => Seq::empty(),
    }
}

/// The `semester` line, when the field is present.
pub open spec fn semester_sec(m: MetadataV) -> Seq<u8> {
    match m.semester {
        Some(v) => semester_label() + esc_spec(v) + nl(),
        None => Seq::empty(),
    }
}

/// The `year` line, trimmed then escaped, when the field is present.
pub open spec fn year_sec(m: MetadataV) -> Seq<u8> {
    match m.year {
        Some(v) => year_label() + esc_spec(trim_of(v)) + nl(),
        None => Seq::empty(),
    }
}

/// The `**Resumo:**` body: the abstract rendered in Markdown mode.
pub open spec fn resumo_sec(m: MetadataV, bib: Seq<BibEntryV>) -> Seq<u8> {
    match m.summary {
        Some(ps) => resumo_label() + spec_render_parts(ps, bib, true)->0 + nl2(),
        None => Seq::empty(),
    }
}

/// The `**Palavras-chave:**` body line: the raw, unsplit keywords.
pub open spec fn palavras_sec(m: MetadataV) -> Seq<u8> {
    match m.keywords {
        Some(kw) => palavras_label() + kw + nl(),
        None => Seq::empty(),
    }
}

/// The whole document, in the fixed field order, assuming every
/// citation in the abstract resolves.
pub open spec fn render_doc(m: MetadataV, bib: Seq<BibEntryV>, date: Seq<u8>) -> Seq<u8> {
    open_fence() + title_sec(m) + desc_sec(m, bib) + date_sec(date) + authors_sec(m) + tags_sec(m)
        + pages_sec(m) + section_sec(m) + series_sec(m) + semester_sec(m) + year_sec(m)
        + close_fence() + resumo_sec(m, bib) + palavras_sec(m)
}

/// The record rendered against a bibliography and an injected date
/// text: `None` exactly when the abstract holds a citation key that
/// the bibliography cannot resolve.
pub open spec fn spec_render_metadata(m: MetadataV, bib: Seq<BibEntryV>, date: Seq<u8>) -> Option<
    Seq<u8>,
> {
    match m.summary {
        Some(ps) => if first_unresolved(ps, bib) is None {
            Some(render_doc(m, bib, date))
        } else {
            None
        },
        None => Some(render_doc(m, bib, date)),
    }
}

/// Append the `title` line of `m`, if any.
fn sec_title(out: &mut Vec<u8>, m: &Metadata)
    ensures
        final(out)@ == old(out)@ + title_sec(m@),
{
    match &m.title {
        Some(t) => {
            let l = title_label_v();
            push_all(out, &l);
            esc_push(out, t);
            let q = quote_nl_v();
            push_all(out, &q);
            assert(out@ =~= old(out)@ + title_sec(m@));
        },
        None => {
            assert(out@ =~= old(out)@ + title_sec(m@));
        },
    }
}

/// Append the `description` line: `desc` is the truncated plain-text
/// render of the abstract, present exactly when the abstract is.
fn sec_desc(out: &mut Vec<u8>, m: &Metadata, bib: &Bibliography, desc: &Option<Vec<u8>>)
    requires
        match (m@.summary, desc) {
            (Some(ps), Some(d)) => d@ == truncate_desc(spec_render_parts(ps, bib@, false)->0),
            (None, None) => true,
            _ => false,
        },
    ensures
        final(out)@ == old(out)@ + desc_sec(m@, bib@),
{
    match desc {
        Some(d) => {
            let l = desc_label_v();
            push_all(out, &l);
            esc_push(out, d);
            let q = quote_nl_v();
            push_all(out, &q);
            assert(out@ =~= old(out)@ + desc_sec(m@, bib@));
        },
        None => {
            assert(out@ =~= old(out)@ + desc_sec(m@, bib@));
        },
    }
}

/// Append the `date` line.
fn sec_date(out: &mut Vec<u8>, date: &Vec<u8>)
    ensures
        final(out)@ == old(out)@ + date_sec(date@),
{
    let l = date_label_v();
    push_all(out, &l);
    push_all(out, date);
    let n = nl_v();
    push_all(out, &n);
    assert(out@ =~= old(out)@ + date_sec(date@));
}

/// Append the `authors` list of `m`, if any, in original order.
fn sec_authors(out: &mut Vec<u8>, m: &Metadata)
    ensures
        final(out)@ == old(out)@ + authors_sec(m@),
{
    match &m.authors {
        Some(aus) => {
            let l = authors_label_v();
            push_all(out, &l);
            let mut j: usize = 0;
            while j < aus.len()
                invariant
                    j <= aus@.len(),
                    out@ == old(out)@ + authors_label() + authors_items(
                        views_of(aus@).subrange(0, j as int),
                    ),
                decreases aus@.len() - j,
            {
                proof {
                    let full = views_of(aus@);
                    assert(full.subrange(0, j + 1 as int).drop_last() =~= full.subrange(
                        0,
                        j as int,
                    ));
                    assert(full.subrange(0, j + 1 as int).last() == aus@[j as int]@);
                }
                let l = given_item_v();
                push_all(out, &l);
                push_all(out, &aus[j].given);
                let l = family_item_v();
                push_all(out, &l);
                push_all(out, &aus[j].family);
                proof {
                    assert(out@ =~= old(out)@ + authors_label() + authors_items(
                        views_of(aus@).subrange(0, j + 1 as int),
                    ));
                }
                j = j + 1;
            }
            let n = nl_v();
            push_all(out, &n);
            proof {
                assert(views_of(aus@).subrange(0, aus@.len() as int) =~= views_of(aus@));
                assert(out@ =~= old(out)@ + authors_sec(m@));
            }
        },
        None => {
            assert(out@ =~= old(out)@ + authors_sec(m@));
        },
    }
}

/// Append the `tags` list of `m`, if any: the keywords split on `.`,
/// each piece trimmed, empty pieces dropped.
fn sec_tags(out: &mut Vec<u8>, m: &Metadata)
    ensures
        final(out)@ == old(out)@ + tags_sec(m@),
{
    match &m.keywords {
        Some(kw) => {
            let l = crate::lit::tags_label_v();
            push_all(out, &l);
            let dp = dot_pat_v();
            let pieces = split_by(kw, &dp);
            let mut j: usize = 0;
            while j < pieces.len()
                invariant
                    j <= pieces@.len(),
                    byte_seqs(pieces@) == split_pat(kw@, dot_pat()),
                    out@ == old(out)@ + crate::lit::tags_label() + tags_items(
                        byte_seqs(pieces@).subrange(0, j as int),
                    ),
                decreases pieces@.len() - j,
            {
                proof {
                    let full = byte_seqs(pieces@);
                    assert(full.subrange(0, j + 1 as int).drop_last() =~= full.subrange(
                        0,
                        j as int,
                    ));
                    assert(full.subrange(0, j + 1 as int).last() == pieces@[j as int]@);
                }
                let t = trim(&pieces[j]);
                if t.len() > 0 {
                    let l = dash_item_v();
                    push_all(out, &l);
                    push_all(out, &t);
                }
                proof {
                    assert(out@ =~= old(out)@ + crate::lit::tags_label() + tags_items(
                        byte_seqs(pieces@).subrange(0, j + 1 as int),
                    ));
                }
                j = j + 1;
            }
            let n = nl_v();
            push_all(out, &n);
            proof {
                assert(byte_seqs(pieces@).subrange(0, pieces@.len() as int) =~= byte_seqs(
                    pieces@,
                ));
                assert(out@ =~= old(out)@ + tags_sec(m@));
            }
        },
        None => {
            assert(out@ =~= old(out)@ + tags_sec(m@));
        },
    }
}

/// Append the `pages` line of `m`, only when both pages are present.
fn sec_pages(out: &mut Vec<u8>, m: &Metadata)
    ensures
        final(out)@ == old(out)@ + pages_sec(m@),
{
    match (&m.first_page, &m.last_page) {
        (Some(f), Some(lp)) => {
            let l = pages_label_v();
            push_all(out, &l);
            push_all(out, f);
            let c = comma_sep_v();
            push_all(out, &c);
            push_all(out, lp);
            let b = bracket_nl_v();
            push_all(out, &b);
            assert(out@ =~= old(out)@ + pages_sec(m@));
        },
        _ => {
            assert(out@ =~= old(out)@ + pages_sec(m@));
        },
    }
}

/// Append the `section` line of `m`, if any.
fn sec_section(out: &mut Vec<u8>, m: &Metadata)
    ensures
        final(out)@ == old(out)@ + section_sec(m@),
{
    match &m.section {
        Some(v) => {
            let l = section_label_v();
            push_all(out, &l);
            esc_push(out, v);
            let q = quote_nl_v();
            push_all(out, &q);
            assert(out@ =~= old(out)@ + section_sec(m@));
        },
        None => {
            assert(out@ =~= old(out)@ + section_sec(m@));
        },
    }
}

/// Append the `series` and `number` lines of `m`, if any.
fn sec_series(out: &mut Vec<u8>, m: &Metadata)
    ensures
        final(out)@ == old(out)@ + series_sec(m@),
{
    match &m.number {
        Some(v) => {
            let l = series_label_v();
            push_all(out, &l);
            esc_push(out, v);
            let b = bracket_nl_v();
            push_all(out, &b);
            let l = number_label_v();
            push_all(out, &l);
            esc_push(out, v);
            let n = nl_v();
            push_all(out, &n);
            assert(out@ =~= old(out)@ + series_sec(m@));
        },
        None => {
            assert(out@ =~= old(out)@ + series_sec(m@));
        },
    }
}

/// Append the `semester` line of `m`, if any.
fn sec_semester(out: &mut Vec<u8>, m: &Metadata)
    ensures
        final(out)@ == old(out)@ + semester_sec(m@),
{
    match &m.semester {
        Some(v) => {
            let l = semester_label_v();
            push_all(out, &l);
            esc_push(out, v);
            let n = nl_v();
            push_all(out, &n);
            assert(out@ =~= old(out)@ + semester_sec(m@));
        },
        None => {
            assert(out@ =~= old(out)@ + semester_sec(m@));
        },
    }
}

/// Append the `year` line of `m`, trimmed, if any.
fn sec_year(out: &mut Vec<u8>, m: &Metadata)
    ensures
        final(out)@ == old(out)@ + year_sec(m@),
{
    match &m.year {
        Some(v) => {
            let l = year_label_v();
            push_all(out, &l);
            let tv = trim(v);
            esc_push(out, &tv);
            let n = nl_v();
            push_all(out, &n);
            assert(out@ =~= old(out)@ + year_sec(m@));
        },
        None => {
            assert(out@ =~= old(out)@ + year_sec(m@));
        },
    }
}

/// Append the `**Resumo:**` body: `body` is the Markdown render of
/// the abstract, present exactly when the abstract is.
fn sec_resumo(out: &mut Vec<u8>, m: &Metadata, bib: &Bibliography, body: &Option<Vec<u8>>)
    requires
        match (m@.summary, body) {
            (Some(ps), Some(b)) => Some(b@) == spec_render_parts(ps, bib@, true),
            (None, None) => true,
            _ => false,
        },
    ensures
        final(out)@ == old(out)@ + resumo_sec(m@, bib@),
{
    match body {
        Some(b) => {
            let l = resumo_label_v();
            push_all(out, &l);
            push_all(out, b);
            let n = nl2_v();
            push_all(out, &n);
            assert(out@ =~= old(out)@ + resumo_sec(m@, bib@));
        },
        None => {
            assert(out@ =~= old(out)@ + resumo_sec(m@, bib@));
        },
    }
}

/// Append the `**Palavras-chave:**` body line of `m`, if any.
fn sec_palavras(out: &mut Vec<u8>, m: &Metadata)
    ensures
        final(out)@ == old(out)@ + palavras_sec(m@),
{
    match &m.keywords {
        Some(kw) => {
            let l = palavras_label_v();
            push_all(out, &l);
            push_all(out, kw);
            let n = nl_v();
            push_all(out, &n);
            assert(out@ =~= old(out)@ + palavras_sec(m@));
        },
        None => {
            assert(out@ =~= old(out)@ + palavras_sec(m@));
        },
    }
}

impl Metadata {
    /// Serialise the record as a YAML front-matter block followed by a
    /// Markdown body, resolving the abstract's citations against `bib`
    /// and stamping the injected `date` text.  An unresolved citation
    /// key aborts the render with no output at all.
    pub fn wtite_to(&self, bib: &Bibliography, date: &Vec<u8>) -> (r: Result<Vec<u8>, RenderError>)
        ensures
            match r {
                Ok(v) => spec_render_metadata(self@, bib@, date@) == Some(v@),
                Err(e) => {
                    &&& spec_render_metadata(self@, bib@, date@) is None
                    &&& self@.summary matches Some(ps) && (e
                        matches RenderError::UnresolvedCitation(k) && Some(k@) == first_unresolved(
                        ps,
                        bib@,
                    ))
                },
            },
    {
        // Render the abstract up front, in both modes, so that an
        // unresolved citation aborts before any output exists.
        let mut desc_plain: Option<Vec<u8>> = None;
        let mut body_md: Option<Vec<u8>> = None;
        match &self.summary {
            Some(a) => {
                let pl = match a.write_to(bib, Format::PlainText) {
                    Ok(v) => v,
                    Err(e) => {
                        return Err(e);
                    },
                };
                let mdv = match a.write_to(bib, Format::Markdown) {
                    Ok(v) => v,
                    Err(e) => {
                        proof {
                            lemma_render_parts_resolved(a@, bib@, true);
                            lemma_render_parts_resolved(a@, bib@, false);
                        }
                        return Err(e);
                    },
                };
                desc_plain = Some(pl);
                body_md = Some(mdv);
            },
            None => {},
        }
        // Truncate the plain-text description.
        let desc_final: Option<Vec<u8>> = match desc_plain {
            Some(mut pl) => {
                let ghost orig = pl@;
                if pl.len() > 143 {
                    pl.truncate(140);
                    let dots = ellipsis_v();
                    push_all(&mut pl, &dots);
                    proof {
                        assert(pl@ =~= truncate_desc(orig));
                    }
                }
                Some(pl)
            },
            None => None,
        };
        let mut out: Vec<u8> = Vec::new();
        let lit = open_fence_v();
        push_all(&mut out, &lit);
        sec_title(&mut out, self);
        sec_desc(&mut out, self, bib, &desc_final);
        sec_date(&mut out, date);
        sec_authors(&mut out, self);
        sec_tags(&mut out, self);
        sec_pages(&mut out, self);
        sec_section(&mut out, self);
        sec_series(&mut out, self);
        sec_semester(&mut out, self);
        sec_year(&mut out, self);
        let cl = close_fence_v();
        push_all(&mut out, &cl);
        sec_resumo(&mut out, self, bib, &body_md);
        sec_palavras(&mut out, self);
        proof {
            assert(out@ =~= render_doc(self@, bib@, date@));
        }
        Ok(out)
    }

    /// Serialise the record as [`Metadata::wtite_to`] does, stamping
    /// the date line with the given Unix timestamp (seconds plus
    /// nanoseconds, UTC).  Fails with `InvalidTimestamp` exactly where
    /// chrono cannot represent the timestamp; on a representable one
    /// it behaves as `wtite_to` with the RFC 3339 text of the
    /// timestamp, so with every citation resolvable it succeeds.
    pub fn wtite_to_at(&self, bib: &Bibliography, secs: i64, nanos: u32) -> (r: Result<
        Vec<u8>,
        RenderError,
    >)
        ensures
            match r {
                Ok(v) => ts_representable(secs as int, nanos as int) && spec_render_metadata(
                    self@,
                    bib@,
                    iso_datetime_of(secs as int, nanos as int),
                ) == Some(v@),
                Err(e) => match e {
                    RenderError::UnresolvedCitation(k) => {
                        &&& ts_representable(secs as int, nanos as int)
                        &&& spec_render_metadata(
                            self@,
                            bib@,
                            iso_datetime_of(secs as int, nanos as int),
                        ) is None
                        &&& self@.summary matches Some(ps) && Some(k@) == first_unresolved(
                            ps,
                            bib@,
                        )
                    },
                    RenderError::InvalidTimestamp => !ts_representable(
                        secs as int,
                        nanos as int,
                    ),
                },
            },
    {
        match format_timestamp(secs, nanos) {
            Some(d) => self.wtite_to(bib, &d),
            None => Err(RenderError::InvalidTimestamp),
        }
    }
}


} // verus!
