//! The abstract parser: an interleaved sequence of plain text spans and
//! typed commands (`\textit`, `\citeyear`, `\cite`), kept in order.

use vstd::prelude::*;

use crate::bib::Bibliography;
use crate::cite::first_unresolved;
use crate::cite::lemma_first_unresolved_at;
use crate::cite::lemma_first_unresolved_push;
use crate::cite::lemma_render_parts_push;
use crate::cite::lemma_render_parts_resolved;
use crate::cite::part_miss;
use crate::cite::render_cite;
use crate::cite::render_citeyear;
use crate::cite::spec_render_part;
use crate::cite::spec_render_parts;
use crate::cite::RenderError;
use crate::lit::kw_cite;
use crate::lit::kw_cite_v;
use crate::lit::kw_citeyear;
use crate::lit::kw_citeyear_v;
use crate::lit::kw_textit;
use crate::lit::kw_textit_v;
use crate::space::space;
use crate::text::push_all;
use crate::text::B_UNDERSCORE;
use crate::text::arg_end;
use crate::text::copy_range;
use crate::text::lemma_arg_end;
use crate::text::lemma_nonws_end;
use crate::text::lemma_text_end;
use crate::text::lemma_ws_end;
use crate::text::match_at;
use crate::text::matches_at;
use crate::text::nonws_end;
use crate::text::scan_arg;
use crate::text::scan_nonws;
use crate::text::scan_text;
use crate::text::text_end;
use crate::text::ws_end;
use crate::text::B_BACKSLASH;
use crate::text::B_LBRACE;

verus! {

/// One parsed piece of an abstract: a plain text span, an italicised
/// span, a year-only citation or a full citation (the last two hold a
/// citation key).
#[derive(Debug, PartialEq, Eq)]
pub enum AbstractPart {
    Text(Vec<u8>),
    Textit(Vec<u8>),
    Citeyear(Vec<u8>),
    Cite(Vec<u8>),
}

/// The mathematical value of an [`AbstractPart`].
pub enum PartV {
    Text(Seq<u8>),
    Textit(Seq<u8>),
    Citeyear(Seq<u8>),
    Cite(Seq<u8>),
}

impl View for AbstractPart {
    type V = PartV;

    open spec fn view(&self) -> PartV {
        match self {
            AbstractPart::Text(t) => PartV::Text(t@),
            AbstractPart::Textit(t) => PartV::Textit(t@),
            AbstractPart::Citeyear(k) => PartV::Citeyear(k@),
            AbstractPart::Cite(k) => PartV::Cite(k@),
        }
    }
}

/// The views of a vector of abstract parts.
pub open spec fn part_views(s: Seq<AbstractPart>) -> Seq<PartV> {
    s.map_values(|p: AbstractPart| p@)
}

pub proof fn lemma_part_views_push(s: Seq<AbstractPart>, p: AbstractPart)
    ensures
        part_views(s.push(p)) == part_views(s).push(p@),
{
    assert forall|i: int| 0 <= i < s.len() + 1 implies part_views(s.push(p))[i] == part_views(
        s,
    ).push(p@)[i] by {
        if i < s.len() {
            assert(s.push(p)[i] == s[i]);
        } else {
            assert(s.push(p)[i] == p);
        }
    }
    assert(part_views(s.push(p)) =~= part_views(s).push(p@));
}

/// A parsed abstract: the ordered list of its parts.
#[derive(Debug, PartialEq, Eq)]
pub struct Abstract {
    pub parts: Vec<AbstractPart>,
}

impl View for Abstract {
    type V = Seq<PartV>;

    open spec fn view(&self) -> Seq<PartV> {
        part_views(self.parts@)
    }
}

/// The output mode of a render: Markdown markup or bare text.
#[derive(Debug, Clone, Copy)]
pub enum Format {
    Markdown,
    PlainText,
}

/// How an italic span renders in each mode: surrounded by `_..._` in
/// Markdown, passed through unchanged in plain text.
pub open spec fn italic_spec(f: Format, t: Seq<u8>) -> Seq<u8> {
    match f {
        Format::Markdown => seq![B_UNDERSCORE] + t + seq![B_UNDERSCORE],
        Format::PlainText => t,
    }
}

impl Format {
    /// Render an italicised span in this mode.
    pub fn italic(&self, text: &Vec<u8>) -> (r: Vec<u8>)
        ensures
            r@ == italic_spec(*self, text@),
    {
        match self {
            Format::Markdown => {
                let mut out: Vec<u8> = Vec::new();
                out.push(B_UNDERSCORE);
                push_all(&mut out, text);
                out.push(B_UNDERSCORE);
                proof {
                    assert(out@ =~= seq![B_UNDERSCORE] + text@ + seq![B_UNDERSCORE]);
                }
                out
            },
            Format::PlainText => {
                let out = crate::text::copy_range(text, 0, text.len());
                proof {
                    assert(out@ =~= text@);
                }
                out
            },
        }
    }
}

impl Abstract {
    /// Render every part in order: text spans as they are, italics per
    /// the mode, citations resolved against the bibliography.  Fails
    /// on the first citation key the bibliography cannot resolve, and
    /// then produces no output at all.
    pub fn write_to(&self, bib: &Bibliography, format: Format) -> (r: Result<
        Vec<u8>,
        RenderError,
    >)
        ensures
            match r {
                Ok(v) => spec_render_parts(self@, bib@, format is Markdown) == Some(v@)
                    && first_unresolved(self@, bib@) is None,
                Err(e) => {
                    &&& spec_render_parts(self@, bib@, format is Markdown) is None
                    &&& e matches RenderError::UnresolvedCitation(k) && Some(k@)
                        == first_unresolved(self@, bib@)
                },
            },
    {
        let is_md = match format {
            Format::Markdown => true,
            Format::PlainText => false,
        };
        let mut out: Vec<u8> = Vec::new();
        let mut i: usize = 0;
        proof {
            assert(self@.subrange(0, 0) =~= Seq::<PartV>::empty());
        }
        while i < self.parts.len()
            invariant
                i <= self.parts@.len(),
                self@ == part_views(self.parts@),
                is_md == (format is Markdown),
                spec_render_parts(self@.subrange(0, i as int), bib@, format is Markdown) == Some(
                    out@,
                ),
                first_unresolved(self@.subrange(0, i as int), bib@) is None,
            decreases self.parts@.len() - i,
        {
            let ghost pre = self@.subrange(0, i as int);
            let ghost p = self@[i as int];
            proof {
                assert(self@.subrange(0, i + 1 as int) =~= pre.push(p));
                lemma_render_parts_push(pre, p, bib@, format is Markdown);
                lemma_first_unresolved_push(pre, p, bib@);
            }
            match &self.parts[i] {
                AbstractPart::Text(t) => {
                    proof {
                        assert(p == PartV::Text(t@));
                    }
                    push_all(&mut out, t);
                },
                AbstractPart::Textit(t) => {
                    proof {
                        assert(p == PartV::Textit(t@));
                    }
                    let it = format.italic(t);
                    push_all(&mut out, &it);
                },
                AbstractPart::Citeyear(key) => {
                    proof {
                        assert(p == PartV::Citeyear(key@));
                    }
                    match bib.lookup(key) {
                        Some(e) => {
                            let piece = render_citeyear(e);
                            push_all(&mut out, &piece);
                        },
                        None => {
                            proof {
                                lemma_first_unresolved_at(self@, bib@, i as int);
                                lemma_render_parts_resolved(self@, bib@, format is Markdown);
                            }
                            let kk = crate::text::copy_range(key, 0, key.len());
                            return Err(RenderError::UnresolvedCitation(kk));
                        },
                    }
                },
                AbstractPart::Cite(key) => {
                    proof {
                        assert(p == PartV::Cite(key@));
                    }
                    match bib.lookup(key) {
                        Some(e) => {
                            let piece = render_cite(e, is_md);
                            push_all(&mut out, &piece);
                        },
                        None => {
                            proof {
                                lemma_first_unresolved_at(self@, bib@, i as int);
                                lemma_render_parts_resolved(self@, bib@, format is Markdown);
                            }
                            let kk = crate::text::copy_range(key, 0, key.len());
                            return Err(RenderError::UnresolvedCitation(kk));
                        },
                    }
                },
            }
            i = i + 1;
        }
        proof {
            assert(self@.subrange(0, self.parts@.len() as int) =~= self@);
        }
        Ok(out)
    }
}

/// What the text production consumes at `i`: a non-empty maximal run
/// of non-backslash bytes.
pub open spec fn spec_text(s: Seq<u8>, i: int) -> Option<(Seq<u8>, int)> {
    let j = text_end(s, i);
    if j == i {
        None
    } else {
        Some((s.subrange(i, j), j))
    }
}

pub proof fn lemma_spec_text(s: Seq<u8>, i: int)
    requires
        0 <= i <= s.len(),
    ensures
        spec_text(s, i) matches Some((t, e)) ==> i < e <= s.len(),
{
    lemma_text_end(s, i);
}

/// What a command argument consumes at `i`: a `{`-delimited run of
/// non-`}` bytes with the braces stripped, or, failing that, a
/// non-empty run of non-whitespace bytes.
pub open spec fn spec_block(s: Seq<u8>, i: int) -> Option<(Seq<u8>, int)> {
    if 0 <= i && i < s.len() && s[i] == B_LBRACE && arg_end(s, i + 1) > i + 1 && arg_end(s, i + 1)
        < s.len() {
        Some((s.subrange(i + 1, arg_end(s, i + 1)), arg_end(s, i + 1) + 1))
    } else {
        let j = nonws_end(s, i);
        if j == i {
            None
        } else {
            Some((s.subrange(i, j), j))
        }
    }
}

pub proof fn lemma_spec_block(s: Seq<u8>, i: int)
    requires
        0 <= i <= s.len(),
    ensures
        spec_block(s, i) matches Some((b, e)) ==> i < e <= s.len(),
{
    if i < s.len() {
        lemma_arg_end(s, i + 1);
    }
    lemma_nonws_end(s, i);
}

/// What the command production consumes at `i`: whitespace, `\`, one
/// of the three command names (tried in the fixed order `textit`,
/// `citeyear`, `cite`), whitespace, then an argument block.
pub open spec fn spec_command(s: Seq<u8>, i: int) -> Option<(PartV, int)> {
    let j = ws_end(s, i);
    if j < s.len() && s[j] == B_BACKSLASH {
        let c = j + 1;
        if matches_at(s, c, kw_textit()) {
            match spec_block(s, ws_end(s, c + kw_textit().len() as int)) {
                Some((arg, e)) => Some((PartV::Textit(arg), e)),
                None => None,
            }
        } else if matches_at(s, c, kw_citeyear()) {
            match spec_block(s, ws_end(s, c + kw_citeyear().len() as int)) {
                Some((arg, e)) => Some((PartV::Citeyear(arg), e)),
                None => None,
            }
        } else if matches_at(s, c, kw_cite()) {
            match spec_block(s, ws_end(s, c + kw_cite().len() as int)) {
                Some((arg, e)) => Some((PartV::Cite(arg), e)),
                None => None,
            }
        } else {
            None
        }
    } else {
        None
    }
}

pub proof fn lemma_spec_command(s: Seq<u8>, i: int)
    requires
        0 <= i <= s.len(),
    ensures
        spec_command(s, i) matches Some((p, e)) ==> i < e <= s.len(),
{
    lemma_ws_end(s, i);
    let j = ws_end(s, i);
    if j < s.len() && s[j] == B_BACKSLASH {
        let c = j + 1;
        if matches_at(s, c, kw_textit()) {
            lemma_ws_end(s, c + kw_textit().len() as int);
            lemma_spec_block(s, ws_end(s, c + kw_textit().len() as int));
        } else if matches_at(s, c, kw_citeyear()) {
            lemma_ws_end(s, c + kw_citeyear().len() as int);
            lemma_spec_block(s, ws_end(s, c + kw_citeyear().len() as int));
        } else if matches_at(s, c, kw_cite()) {
            lemma_ws_end(s, c + kw_cite().len() as int);
            lemma_spec_block(s, ws_end(s, c + kw_cite().len() as int));
        }
    }
}

/// The part list that the abstract grammar yields at `i`: text spans
/// and commands, repeated zero or more times, stopping at the first
/// position where neither production can advance.
pub open spec fn spec_abstract(s: Seq<u8>, i: int) -> (Seq<PartV>, int)
    decreases s.len() - i,
{
    match spec_text(s, i) {
        Some((t, j)) => if i < j <= s.len() {
            let (rest, e) = spec_abstract(s, j);
            (seq![PartV::Text(t)] + rest, e)
        } else {
            (seq![PartV::Text(t)], j)
        },
        None => match spec_command(s, i) {
            Some((p, j)) => if i < j <= s.len() {
                let (rest, e) = spec_abstract(s, j);
                (seq![p] + rest, e)
            } else {
                (seq![p], j)
            },
            None => (Seq::empty(), i),
        },
    }
}

pub proof fn lemma_spec_abstract(s: Seq<u8>, i: int)
    requires
        0 <= i <= s.len(),
    ensures
        i <= spec_abstract(s, i).1 <= s.len(),
    decreases s.len() - i,
{
    lemma_spec_text(s, i);
    lemma_spec_command(s, i);
    match spec_text(s, i) {
        Some((t, j)) => {
            lemma_spec_abstract(s, j);
        },
        None => {
            match spec_command(s, i) {
                Some((p, j)) => {
                    lemma_spec_abstract(s, j);
                },
                None => {},
            }
        },
    }
}

/// Round trip: an abstract with no commands (no backslash anywhere)
/// parses to a single text part equal to the whole input, and that
/// part renders in plain-text mode to exactly the input bytes, under
/// any bibliography.
pub proof fn lemma_plain_abstract_round_trip(s: Seq<u8>, bib: Seq<crate::bib::BibEntryV>)
    requires
        s.len() > 0,
        forall|k: int| 0 <= k < s.len() ==> #[trigger] s[k] != B_BACKSLASH,
    ensures
        spec_abstract(s, 0).0 == seq![PartV::Text(s)],
        spec_abstract(s, 0).1 == s.len(),
        spec_render_parts(seq![PartV::Text(s)], bib, false) == Some(s),
{
    let n = s.len() as int;
    crate::text::lemma_text_end_is(s, 0, n);
    assert(s.subrange(0, n) =~= s);
    crate::text::lemma_text_end_is(s, n, n);
    crate::text::lemma_ws_end_is(s, n, n);
    assert(spec_text(s, n) is None);
    assert(spec_command(s, n) is None);
    assert(spec_abstract(s, n).0 =~= Seq::<PartV>::empty());
    assert(spec_abstract(s, 0).0 =~= seq![PartV::Text(s)]);
    let parts = seq![PartV::Text(s)];
    assert(parts.drop_first() =~= Seq::<PartV>::empty());
    assert(spec_render_parts(parts.drop_first(), bib, false) == Some(Seq::<u8>::empty()));
    assert(s + Seq::<u8>::empty() =~= s);
}

/// Parse one plain text span.
fn text(input: &Vec<u8>, pos: usize) -> (r: Option<(Vec<u8>, usize)>)
    requires
        pos <= input@.len(),
    ensures
        r is Some <==> spec_text(input@, pos as int) is Some,
        r matches Some((t, e)) ==> spec_text(input@, pos as int) == Some((t@, e as int)),
        r matches Some((t, e)) ==> pos < e <= input@.len(),
{
    let j = scan_text(input, pos);
    if j == pos {
        None
    } else {
        Some((copy_range(input, pos, j), j))
    }
}

/// Parse one command argument block.
fn block(input: &Vec<u8>, pos: usize) -> (r: Option<(Vec<u8>, usize)>)
    requires
        pos <= input@.len(),
    ensures
        r is Some <==> spec_block(input@, pos as int) is Some,
        r matches Some((b, e)) ==> spec_block(input@, pos as int) == Some((b@, e as int)),
        r matches Some((b, e)) ==> pos < e <= input@.len(),
{
    proof {
        lemma_spec_block(input@, pos as int);
    }
    if pos < input.len() && input[pos] == B_LBRACE {
        let j = scan_arg(input, pos + 1);
        if j > pos + 1 && j < input.len() {
            return Some((copy_range(input, pos + 1, j), j + 1));
        }
    }
    let j = scan_nonws(input, pos);
    if j == pos {
        None
    } else {
        Some((copy_range(input, pos, j), j))
    }
}

/// Parse one command: `\textit`, `\citeyear` or `\cite` with its
/// argument.
fn command(input: &Vec<u8>, pos: usize) -> (r: Option<(AbstractPart, usize)>)
    requires
        pos <= input@.len(),
    ensures
        r is Some <==> spec_command(input@, pos as int) is Some,
        r matches Some((p, e)) ==> spec_command(input@, pos as int) == Some((p@, e as int)),
        r matches Some((p, e)) ==> pos < e <= input@.len(),
{
    proof {
        lemma_spec_command(input@, pos as int);
    }
    let n = input.len();
    let j = space(input, pos);
    if j < n && input[j] == B_BACKSLASH {
        let c = j + 1;
        let kwt = kw_textit_v();
        let kwcy = kw_citeyear_v();
        let kwc = kw_cite_v();
        if match_at(input, c, &kwt) {
            assert(c + 6 <= n);
            let m = space(input, c + 6);
            match block(input, m) {
                Some((arg, e)) => Some((AbstractPart::Textit(arg), e)),
                None => None,
            }
        } else if match_at(input, c, &kwcy) {
            assert(c + 8 <= n);
            let m = space(input, c + 8);
            match block(input, m) {
                Some((arg, e)) => Some((AbstractPart::Citeyear(arg), e)),
                None => None,
            }
        } else if match_at(input, c, &kwc) {
            assert(c + 4 <= n);
            let m = space(input, c + 4);
            match block(input, m) {
                Some((arg, e)) => Some((AbstractPart::Cite(arg), e)),
                None => None,
            }
        } else {
            None
        }
    } else {
        None
    }
}

/// Parse an abstract: alternate text spans and commands for as long as
/// either can advance.  Never fails; what cannot be consumed is left
/// as the remainder.
pub fn parse_abstract(input: &Vec<u8>, pos: usize) -> (r: (Abstract, usize))
    requires
        pos <= input@.len(),
    ensures
        r.0@ == spec_abstract(input@, pos as int).0,
        r.1 == spec_abstract(input@, pos as int).1,
        pos <= r.1 <= input@.len(),
{
    let mut acc: Vec<AbstractPart> = Vec::new();
    let mut cur = pos;
    loop
        invariant
            pos <= cur <= input@.len(),
            spec_abstract(input@, pos as int).0 == part_views(acc@) + spec_abstract(
                input@,
                cur as int,
            ).0,
            spec_abstract(input@, pos as int).1 == spec_abstract(input@, cur as int).1,
        ensures
            pos <= cur <= input@.len(),
            spec_abstract(input@, pos as int).0 == part_views(acc@),
            spec_abstract(input@, pos as int).1 == cur as int,
        decreases input@.len() - cur,
    {
        let step = match text(input, cur) {
            Some(te) => Some((AbstractPart::Text(te.0), te.1)),
            None => match command(input, cur) {
                Some(pe) => Some(pe),
                None => None,
            },
        };
        match step {
            Some((p, e)) => {
                proof {
                    let rest = spec_abstract(input@, e as int);
                    assert(spec_abstract(input@, cur as int).0 == seq![p@] + rest.0);
                    lemma_part_views_push(acc@, p);
                    assert(part_views(acc@) + (seq![p@] + rest.0) =~= part_views(acc@.push(p))
                        + rest.0);
                }
                acc.push(p);
                cur = e;
            },
            None => {
                proof {
                    assert(spec_abstract(input@, cur as int).0 =~= Seq::<PartV>::empty());
                    assert(part_views(acc@) + Seq::<PartV>::empty() =~= part_views(acc@));
                }
                break ;
            },
        }
    }
    (Abstract { parts: acc }, cur)
}

} // verus!
