//! The citation renderer: resolves a citation key against the
//! bibliography and formats the author/year display under the fallback
//! rules (missing `year` → `s.d.`; missing `author` → first word of the
//! title; four or more authors → `et al.`).

use vstd::prelude::*;

use crate::bib::spec_lookup;
use crate::bib::spec_tag;
use crate::bib::BibEntry;
use crate::bib::BibEntryV;
use crate::lit::and_sep;
use crate::lit::and_sep_v;
use crate::lit::comma_sep;
use crate::lit::comma_sep_v;
use crate::lit::et_al_md;
use crate::lit::et_al_md_v;
use crate::lit::et_al_plain;
use crate::lit::et_al_plain_v;
use crate::lit::kw_title;
use crate::lit::kw_title_v;
use crate::lit::kw_year;
use crate::lit::kw_year_v;
use crate::lit::sd_mark;
use crate::lit::sd_mark_v;
use crate::lit::semi_sep;
use crate::lit::semi_sep_v;
use crate::lit::tag_author;
use crate::lit::tag_author_v;
use crate::summary::PartV;
use crate::text::byte_seqs;
use crate::text::comma_end;
use crate::text::copy_range;
use crate::text::nonws_end;
use crate::text::push_all;
use crate::text::scan_comma;
use crate::text::scan_nonws;
use crate::text::scan_ws;
use crate::text::split_by;
use crate::text::split_pat;
use crate::text::ws_end;
use crate::unicode::to_upper;
use crate::unicode::trim;
use crate::unicode::trim_of;
use crate::unicode::upper_of;
use crate::text::B_LPAREN;
use crate::text::B_RPAREN;
use crate::text::B_UNDERSCORE;

verus! {

/// An error that aborts a render.
#[derive(Debug, PartialEq, Eq)]
pub enum RenderError {
    /// A citation key absent from the bibliography; the key is
    /// carried.  Always fatal: an unresolvable cross-reference.
    UnresolvedCitation(Vec<u8>),
    /// An injected timestamp outside the representable range.
    InvalidTimestamp,
}

/// The year display of a record: its `year` tag value, or the fixed
/// fallback `s.d.` when the tag is absent.
pub open spec fn year_of(e: BibEntryV) -> Seq<u8> {
    match spec_tag(e.tags, kw_year()) {
        Some(y) => y,
        None => sd_mark(),
    }
}

/// The portion of a bibliography author name before its first comma:
/// the surname under `Surname, Initials` convention.
pub open spec fn surname(n: Seq<u8>) -> Seq<u8> {
    n.subrange(0, comma_end(n, 0))
}

/// The first whitespace-delimited word of `s`.
pub open spec fn first_word(s: Seq<u8>) -> Seq<u8> {
    s.subrange(ws_end(s, 0), nonws_end(s, ws_end(s, 0)))
}

/// The trimmed surnames of a name list, joined with `; `.
pub open spec fn display_names(names: Seq<Seq<u8>>) -> Seq<u8>
    decreases names.len(),
{
    if names.len() == 0 {
        Seq::empty()
    } else if names.len() == 1 {
        trim_of(surname(names[0]))
    } else {
        trim_of(surname(names[0])) + semi_sep() + display_names(names.drop_first())
    }
}

/// The author display of a resolved record, upper-cased.  Precedence:
/// the `author` tag split on ` AND ` (one surname used directly, two
/// or three joined with `; `, more than three shortened to the first
/// surname plus `et al.`); failing that, the first word of the `title`
/// tag; failing that, the empty string.
pub open spec fn author_display(e: BibEntryV, md: bool) -> Seq<u8> {
    match spec_tag(e.tags, tag_author()) {
        Some(v) => {
            let names = split_pat(v, and_sep());
            if names.len() > 3 {
                upper_of(trim_of(surname(names[0]))) + if md {
                    et_al_md()
                } else {
                    et_al_plain()
                }
            } else {
                upper_of(display_names(names))
            }
        },
        None => match spec_tag(e.tags, kw_title()) {
            Some(t) => upper_of(first_word(t)),
            None => Seq::empty(),
        },
    }
}

/// What one abstract part renders to, or `None` when its citation key
/// is unresolved.
pub open spec fn spec_render_part(p: PartV, bib: Seq<BibEntryV>, md: bool) -> Option<Seq<u8>> {
    match p {
        PartV::Text(t) => Some(t),
        PartV::Textit(t) => Some(
            if md {
                seq![B_UNDERSCORE] + t + seq![B_UNDERSCORE]
            } else {
                t
            },
        ),
        PartV::Citeyear(k) => match spec_lookup(bib, k) {
            Some(e) => Some(seq![B_LPAREN] + year_of(e) + seq![B_RPAREN]),
            None => None,
        },
        PartV::Cite(k) => match spec_lookup(bib, k) {
            Some(e) => Some(
                seq![B_LPAREN] + author_display(e, md) + comma_sep() + trim_of(year_of(e))
                    + seq![B_RPAREN],
            ),
            None => None,
        },
    }
}

/// The key that one part fails on: its citation key when the
/// bibliography lacks it, `None` otherwise.
pub open spec fn part_miss(p: PartV, bib: Seq<BibEntryV>) -> Option<Seq<u8>> {
    match p {
        PartV::Citeyear(k) => if spec_lookup(bib, k) is None {
            Some(k)
        } else {
            None
        },
        PartV::Cite(k) => if spec_lookup(bib, k) is None {
            Some(k)
        } else {
            None
        },
        _ => None,
    }
}

/// The key of the first citation in the list that the bibliography
/// cannot resolve, if any.
pub open spec fn first_unresolved(parts: Seq<PartV>, bib: Seq<BibEntryV>) -> Option<Seq<u8>>
    decreases parts.len(),
{
    if parts.len() == 0 {
        None
    } else if part_miss(parts.first(), bib) is Some {
        part_miss(parts.first(), bib)
    } else {
        first_unresolved(parts.drop_first(), bib)
    }
}

/// The whole part list rendered in order, or `None` as soon as one
/// citation is unresolved.
pub open spec fn spec_render_parts(parts: Seq<PartV>, bib: Seq<BibEntryV>, md: bool) -> Option<
    Seq<u8>,
>
    decreases parts.len(),
{
    if parts.len() == 0 {
        Some(Seq::empty())
    } else {
        match (spec_render_part(parts.first(), bib, md), spec_render_parts(
            parts.drop_first(),
            bib,
            md,
        )) {
            (Some(h), Some(t)) => Some(h + t),
            _ => None,
        }
    }
}

/// A part list renders exactly when none of its citations is
/// unresolved — in either output mode.
pub proof fn lemma_render_parts_resolved(parts: Seq<PartV>, bib: Seq<BibEntryV>, md: bool)
    ensures
        spec_render_parts(parts, bib, md) is Some <==> first_unresolved(parts, bib) is None,
    decreases parts.len(),
{
    if parts.len() > 0 {
        lemma_render_parts_resolved(parts.drop_first(), bib, md);
    }
}

pub proof fn lemma_render_parts_push(parts: Seq<PartV>, p: PartV, bib: Seq<BibEntryV>, md: bool)
    ensures
        match (spec_render_parts(parts, bib, md), spec_render_part(p, bib, md)) {
            (Some(a), Some(h)) => spec_render_parts(parts.push(p), bib, md) == Some(a + h),
            _ => spec_render_parts(parts.push(p), bib, md) is None,
        },
    decreases parts.len(),
{
    if parts.len() == 0 {
        assert(parts.push(p).drop_first() =~= Seq::<PartV>::empty());
        assert(parts.push(p).first() == p);
        match spec_render_part(p, bib, md) {
            Some(h) => {
                assert(spec_render_parts(parts.push(p), bib, md) == Some(h + Seq::<u8>::empty()));
                assert(h + Seq::<u8>::empty() =~= Seq::<u8>::empty() + h);
            },
            None => {},
        }
    } else {
        assert(parts.push(p).first() == parts.first());
        assert(parts.push(p).drop_first() =~= parts.drop_first().push(p));
        lemma_render_parts_push(parts.drop_first(), p, bib, md);
        match (spec_render_part(parts.first(), bib, md), spec_render_parts(
            parts.drop_first(),
            bib,
            md,
        ), spec_render_part(p, bib, md)) {
            (Some(h0), Some(a0), Some(h)) => {
                assert(spec_render_parts(parts, bib, md) == Some(h0 + a0));
                assert(spec_render_parts(parts.drop_first().push(p), bib, md) == Some(a0 + h));
                assert(spec_render_parts(parts.push(p), bib, md) == Some(h0 + (a0 + h)));
                assert(h0 + (a0 + h) =~= (h0 + a0) + h);
            },
            _ => {},
        }
    }
}

pub proof fn lemma_first_unresolved_push(parts: Seq<PartV>, p: PartV, bib: Seq<BibEntryV>)
    ensures
        first_unresolved(parts.push(p), bib) == (match first_unresolved(parts, bib) {
            Some(k) => Some(k),
            None => part_miss(p, bib),
        }),
    decreases parts.len(),
{
    if parts.len() == 0 {
        assert(parts.push(p).drop_first() =~= Seq::<PartV>::empty());
        assert(parts.push(p).first() == p);
    } else {
        assert(parts.push(p).first() == parts.first());
        assert(parts.push(p).drop_first() =~= parts.drop_first().push(p));
        lemma_first_unresolved_push(parts.drop_first(), p, bib);
    }
}

/// Citation fallback: a resolved record lacking a `year` tag renders
/// `(s.d.)` for a year-only citation, in either output mode.
pub proof fn lemma_citeyear_fallback(bib: Seq<BibEntryV>, k: Seq<u8>, md: bool)
    requires
        spec_lookup(bib, k) matches Some(e) && spec_tag(e.tags, kw_year()) is None,
    ensures
        spec_render_part(PartV::Citeyear(k), bib, md) == Some(
            seq![B_LPAREN] + sd_mark() + seq![B_RPAREN],
        ),
{
}

/// Citation fallback: a record lacking an `author` tag takes its
/// author display from the first word of the `title` tag, upper-cased.
pub proof fn lemma_author_fallback_title(e: BibEntryV, md: bool)
    requires
        spec_tag(e.tags, tag_author()) is None,
        spec_tag(e.tags, kw_title()) is Some,
    ensures
        author_display(e, md) == upper_of(first_word(spec_tag(e.tags, kw_title())->0)),
{
}

/// Citation fallback: an `author` tag with four or more ` AND
/// `-separated names renders the first trimmed surname plus `et al.`,
/// upper-cased, the suffix italicised in Markdown mode.
pub proof fn lemma_et_al(e: BibEntryV, md: bool)
    requires
        spec_tag(e.tags, tag_author()) matches Some(v) && split_pat(v, and_sep()).len() >= 4,
    ensures
        author_display(e, md) == upper_of(
            trim_of(surname(split_pat(spec_tag(e.tags, tag_author())->0, and_sep())[0])),
        ) + (if md {
            et_al_md()
        } else {
            et_al_plain()
        }),
{
}

/// When a prefix of the list is fully resolved and the part after it
/// fails, that part's key is the first unresolved key of the whole
/// list.
pub proof fn lemma_first_unresolved_at(parts: Seq<PartV>, bib: Seq<BibEntryV>, i: int)
    requires
        0 <= i < parts.len(),
        first_unresolved(parts.subrange(0, i), bib) is None,
        part_miss(parts[i], bib) is Some,
    ensures
        first_unresolved(parts, bib) == part_miss(parts[i], bib),
    decreases i,
{
    if i == 0 {
        assert(parts.first() == parts[0]);
    } else {
        let pre = parts.subrange(0, i);
        assert(pre.len() == i > 0);
        assert(pre.first() == parts[0]);
        assert(part_miss(parts[0], bib) is None);
        assert(first_unresolved(pre.drop_first(), bib) is None);
        assert(pre.drop_first() =~= parts.drop_first().subrange(0, i - 1));
        assert(parts.drop_first()[i - 1] == parts[i]);
        lemma_first_unresolved_at(parts.drop_first(), bib, i - 1);
        assert(parts.first() == parts[0]);
    }
}

/// Render the year-only citation of a resolved record: `(YEAR)`.
pub fn render_citeyear(e: &BibEntry) -> (r: Vec<u8>)
    ensures
        r@ == seq![B_LPAREN] + year_of(e@) + seq![B_RPAREN],
{
    let mut out: Vec<u8> = Vec::new();
    out.push(B_LPAREN);
    let yname = kw_year_v();
    match e.tag_value(&yname) {
        Some(y) => {
            push_all(&mut out, y);
        },
        None => {
            let sd = sd_mark_v();
            push_all(&mut out, &sd);
        },
    }
    out.push(B_RPAREN);
    proof {
        assert(out@ =~= seq![B_LPAREN] + year_of(e@) + seq![B_RPAREN]);
    }
    out
}

/// The trimmed surname of one name piece of the split `author` tag.
fn piece_surname(n: &Vec<u8>) -> (r: Vec<u8>)
    ensures
        r@ == trim_of(surname(n@)),
{
    let b = scan_comma(n, 0);
    let s = copy_range(n, 0, b);
    trim(&s)
}

/// The author display of a resolved record, upper-cased.
pub fn author_disp(e: &BibEntry, md: bool) -> (r: Vec<u8>)
    ensures
        r@ == author_display(e@, md),
{
    let aname = tag_author_v();
    match e.tag_value(&aname) {
        Some(v) => {
            let sep = and_sep_v();
            let names = split_by(v, &sep);
            proof {
                assert(byte_seqs(names@) == split_pat(v@, and_sep()));
                assert(split_pat(v@, and_sep()).len() > 0);
            }
            if names.len() > 3 {
                let s0 = piece_surname(&names[0]);
                let mut out = to_upper(&s0);
                let suffix = if md {
                    et_al_md_v()
                } else {
                    et_al_plain_v()
                };
                push_all(&mut out, &suffix);
                proof {
                    assert(names@[0]@ == byte_seqs(names@)[0]);
                }
                out
            } else {
                let mut joined: Vec<u8> = Vec::new();
                let mut i: usize = 0;
                while i < names.len()
                    invariant
                        i <= names@.len(),
                        byte_seqs(names@) == split_pat(v@, and_sep()),
                        joined@ == display_names(byte_seqs(names@).subrange(0, i as int)),
                    decreases names@.len() - i,
                {
                    if i > 0 {
                        let sp = semi_sep_v();
                        push_all(&mut joined, &sp);
                    }
                    let sn = piece_surname(&names[i]);
                    push_all(&mut joined, &sn);
                    proof {
                        assert(names@[i as int]@ == byte_seqs(names@)[i as int]);
                        lemma_display_names_take(byte_seqs(names@), i + 1 as int);
                    }
                    i = i + 1;
                }
                proof {
                    assert(byte_seqs(names@).subrange(0, names@.len() as int) =~= byte_seqs(
                        names@,
                    ));
                }
                to_upper(&joined)
            }
        },
        None => {
            let tname = kw_title_v();
            match e.tag_value(&tname) {
                Some(t) => {
                    let a = scan_ws(t, 0);
                    let b = scan_nonws(t, a);
                    let w = copy_range(t, a, b);
                    to_upper(&w)
                },
                None => {
                    let out: Vec<u8> = Vec::new();
                    proof {
                        assert(out@ =~= Seq::<u8>::empty());
                    }
                    out
                },
            }
        },
    }
}

/// Peeling the last name off a non-empty prefix of the name list
/// extends the joined display by `; ` and its trimmed surname.
pub proof fn lemma_display_names_take(names: Seq<Seq<u8>>, i: int)
    requires
        1 <= i <= names.len(),
    ensures
        display_names(names.subrange(0, i)) == if i == 1 {
            trim_of(surname(names[0]))
        } else {
            display_names(names.subrange(0, i - 1)) + semi_sep() + trim_of(surname(names[i - 1]))
        },
    decreases i,
{
    let pre = names.subrange(0, i);
    if i == 1 {
        assert(pre.len() == 1);
        assert(pre[0] == names[0]);
    } else {
        assert(pre.len() >= 2);
        assert(pre[0] == names[0]);
        lemma_display_names_drop(pre);
        assert(pre.drop_first() =~= names.subrange(1, i));
        lemma_display_names_take_inner(names, i);
    }
}

/// Joining names associates: the display of a prefix of length `i >= 2`
/// equals the display of the shorter prefix plus the last surname.
proof fn lemma_display_names_take_inner(names: Seq<Seq<u8>>, i: int)
    requires
        2 <= i <= names.len(),
    ensures
        display_names(names.subrange(0, i)) == display_names(names.subrange(0, i - 1)) + semi_sep()
            + trim_of(surname(names[i - 1])),
    decreases i,
{
    let pre = names.subrange(0, i);
    let pre1 = names.subrange(0, i - 1);
    if i == 2 {
        assert(pre.len() == 2);
        assert(pre[0] == names[0] && pre[1] == names[1]);
        assert(pre.drop_first() =~= names.subrange(1, 2));
        assert(names.subrange(1, 2).len() == 1);
        assert(names.subrange(1, 2)[0] == names[1]);
        assert(pre1.len() == 1);
        assert(pre1[0] == names[0]);
        assert(display_names(names.subrange(1, 2)) == trim_of(surname(names[1])));
        assert(display_names(pre1) == trim_of(surname(names[0])));
        assert(display_names(pre) == trim_of(surname(names[0])) + semi_sep() + display_names(
            names.subrange(1, 2),
        ));
        assert(display_names(pre) == display_names(pre1) + semi_sep() + trim_of(
            surname(names[1]),
        ));
    } else {
        let tail = names.subrange(1, names.len() as int);
        lemma_display_names_take_inner(tail, i - 1);
        assert(pre.drop_first() =~= tail.subrange(0, i - 1));
        assert(pre1.drop_first() =~= tail.subrange(0, i - 2));
        assert(tail.subrange(0, i - 1)[i - 2] == names[i - 1]);
        assert(pre.len() >= 2);
        assert(pre1.len() >= 2);
        assert(pre[0] == names[0]);
        assert(pre1[0] == names[0]);
        assert(display_names(pre) == trim_of(surname(names[0])) + semi_sep() + display_names(
            tail.subrange(0, i - 1),
        ));
        assert(display_names(pre1) == trim_of(surname(names[0])) + semi_sep() + display_names(
            tail.subrange(0, i - 2),
        ));
        assert(trim_of(surname(names[0])) + semi_sep() + (display_names(tail.subrange(0, i - 2))
            + semi_sep() + trim_of(surname(names[i - 1]))) =~= (trim_of(surname(names[0]))
            + semi_sep() + display_names(tail.subrange(0, i - 2))) + semi_sep() + trim_of(
            surname(names[i - 1]),
        ));
        assert(display_names(tail.subrange(0, i - 1)) == display_names(tail.subrange(0, i - 2))
            + semi_sep() + trim_of(surname(names[i - 1])));
        assert(display_names(pre) == trim_of(surname(names[0])) + semi_sep() + (display_names(
            tail.subrange(0, i - 2),
        ) + semi_sep() + trim_of(surname(names[i - 1]))));
        assert(display_names(pre) == display_names(pre1) + semi_sep() + trim_of(
            surname(names[i - 1]),
        ));
    }
}

/// Unfolding helper: the display of a list of two or more names.
proof fn lemma_display_names_drop(names: Seq<Seq<u8>>)
    requires
        names.len() >= 2,
    ensures
        display_names(names) == trim_of(surname(names[0])) + semi_sep() + display_names(
            names.drop_first(),
        ),
{
}

/// Render the full citation of a resolved record:
/// `(AUTHOR, YEAR)`, with the author display upper-cased and the year
/// trimmed.
pub fn render_cite(e: &BibEntry, md: bool) -> (r: Vec<u8>)
    ensures
        r@ == seq![B_LPAREN] + author_display(e@, md) + comma_sep() + trim_of(year_of(e@))
            + seq![B_RPAREN],
{
    let mut out: Vec<u8> = Vec::new();
    out.push(B_LPAREN);
    let disp = author_disp(e, md);
    push_all(&mut out, &disp);
    let cs = comma_sep_v();
    push_all(&mut out, &cs);
    let yname = kw_year_v();
    let year = match e.tag_value(&yname) {
        Some(y) => copy_range(y, 0, y.len()),
        None => sd_mark_v(),
    };
    proof {
        assert(year@ =~= year_of(e@));
    }
    let ty = trim(&year);
    push_all(&mut out, &ty);
    out.push(B_RPAREN);
    proof {
        assert(out@ =~= seq![B_LPAREN] + author_display(e@, md) + comma_sep() + trim_of(
            year_of(e@),
        ) + seq![B_RPAREN]);
    }
    out
}

} // verus!
