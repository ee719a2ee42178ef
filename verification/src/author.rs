//! The author-entry parser: one `given>...,family>...` (or reversed)
//! record, order-independent on the two labelled parts.

use vstd::prelude::*;

use crate::lit::kw_family;
use crate::lit::kw_family_v;
use crate::lit::kw_given;
use crate::lit::kw_given_v;
use crate::space::space;
use crate::text::copy_range;
use crate::text::is_name_stop;
use crate::text::lemma_name_end;
use crate::text::lemma_name_end_is;
use crate::text::lemma_ws_end;
use crate::text::lemma_ws_end_is;
use crate::text::match_at;
use crate::text::matches_at;
use crate::text::name_end;
use crate::text::scan_name;
use crate::text::ws_end;
use crate::text::B_BACKSLASH;
use crate::text::B_COMMA;
use crate::text::B_DOT;
use crate::text::B_GT;

verus! {

/// One parsed author: a given name and a family name, both byte spans
/// copied out of the input.
#[derive(Debug, PartialEq, Eq)]
pub struct Author {
    pub given: Vec<u8>,
    pub family: Vec<u8>,
}

/// The mathematical value of an [`Author`].
pub struct AuthorV {
    pub given: Seq<u8>,
    pub family: Seq<u8>,
}

impl View for Author {
    type V = AuthorV;

    open spec fn view(&self) -> AuthorV {
        AuthorV { given: self.given@, family: self.family@ }
    }
}

/// What the name production consumes at `i`: a non-empty run of bytes
/// free of `,`, `.` and `\`, with one trailing `,` or `.` consumed and
/// discarded when present.
pub open spec fn spec_name(s: Seq<u8>, i: int) -> Option<(Seq<u8>, int)> {
    let j = name_end(s, i);
    if j == i {
        None
    } else {
        let nm = s.subrange(i, j);
        if j < s.len() && (s[j] == B_COMMA || s[j] == B_DOT) {
            Some((nm, j + 1))
        } else {
            Some((nm, j))
        }
    }
}

pub proof fn lemma_spec_name(s: Seq<u8>, i: int)
    requires
        0 <= i <= s.len(),
    ensures
        spec_name(s, i) matches Some((nm, e)) ==> i < e <= s.len() && nm.len() > 0,
{
    lemma_name_end(s, i);
}

/// What one labelled part consumes at `i`: leading whitespace, the
/// label `given` or `family`, whitespace, `>`, whitespace, then a name.
/// The boolean is true for a `given` part.
pub open spec fn spec_author_part(s: Seq<u8>, i: int) -> Option<(bool, Seq<u8>, int)> {
    let j = ws_end(s, i);
    if matches_at(s, j, kw_given()) {
        spec_part_tail(s, j + kw_given().len() as int, true)
    } else if matches_at(s, j, kw_family()) {
        spec_part_tail(s, j + kw_family().len() as int, false)
    } else {
        None
    }
}

/// The part after a matched label: whitespace, `>`, whitespace, name.
pub open spec fn spec_part_tail(s: Seq<u8>, i: int, is_given: bool) -> Option<
    (bool, Seq<u8>, int),
> {
    let k = ws_end(s, i);
    if k < s.len() && s[k] == B_GT {
        let m = ws_end(s, k + 1);
        match spec_name(s, m) {
            Some((nm, e)) => Some((is_given, nm, e)),
            None => None,
        }
    } else {
        None
    }
}

pub proof fn lemma_spec_author_part(s: Seq<u8>, i: int)
    requires
        0 <= i <= s.len(),
    ensures
        spec_author_part(s, i) matches Some((g, nm, e)) ==> i < e <= s.len(),
{
    lemma_ws_end(s, i);
    let j = ws_end(s, i);
    if matches_at(s, j, kw_given()) {
        lemma_spec_part_tail(s, j + kw_given().len() as int);
    } else if matches_at(s, j, kw_family()) {
        lemma_spec_part_tail(s, j + kw_family().len() as int);
    }
}

pub proof fn lemma_spec_part_tail(s: Seq<u8>, i: int)
    requires
        0 <= i <= s.len(),
    ensures
        forall|g: bool|
            #[trigger] spec_part_tail(s, i, g) matches Some((g2, nm, e)) ==> i < e <= s.len(),
{
    lemma_ws_end(s, i);
    let k = ws_end(s, i);
    if k < s.len() && s[k] == B_GT {
        lemma_ws_end(s, k + 1);
        lemma_spec_name(s, ws_end(s, k + 1));
    }
}

/// What one author entry consumes at `i`: two labelled parts, exactly
/// one `given` and one `family`, in either order.
pub open spec fn spec_author(s: Seq<u8>, i: int) -> Option<(AuthorV, int)> {
    match spec_author_part(s, i) {
        Some((g1, n1, j)) => match spec_author_part(s, j) {
            Some((g2, n2, k)) => if g1 && !g2 {
                Some((AuthorV { given: n1, family: n2 }, k))
            } else if !g1 && g2 {
                Some((AuthorV { given: n2, family: n1 }, k))
            } else {
                None
            },
            None => None,
        },
        None => None,
    }
}

pub proof fn lemma_spec_author(s: Seq<u8>, i: int)
    requires
        0 <= i <= s.len(),
    ensures
        spec_author(s, i) matches Some((a, e)) ==> i < e <= s.len(),
{
    lemma_spec_author_part(s, i);
    match spec_author_part(s, i) {
        Some((g1, n1, j)) => {
            lemma_spec_author_part(s, j);
        },
        None => {},
    }
}

/// The views of a vector of authors.
pub open spec fn views_of(s: Seq<Author>) -> Seq<AuthorV> {
    s.map_values(|a: Author| a@)
}

pub proof fn lemma_views_of_push(s: Seq<Author>, a: Author)
    ensures
        views_of(s.push(a)) == views_of(s).push(a@),
{
    assert forall|i: int| 0 <= i < s.len() + 1 implies views_of(s.push(a))[i] == views_of(
        s,
    ).push(a@)[i] by {
        if i < s.len() {
            assert(s.push(a)[i] == s[i]);
        } else {
            assert(s.push(a)[i] == a);
        }
    }
    assert(views_of(s.push(a)) =~= views_of(s).push(a@));
}

/// The greedy one-or-more author list at `i`: entries are parsed until
/// the grammar no longer matches; the remainder starts at the returned
/// position.  (Zero entries are possible here; the caller requires at
/// least one.)
pub open spec fn spec_author_list(s: Seq<u8>, i: int) -> (Seq<AuthorV>, int)
    decreases s.len() - i,
{
    match spec_author(s, i) {
        Some((a, j)) => if i < j <= s.len() {
            let (rest, e) = spec_author_list(s, j);
            (seq![a] + rest, e)
        } else {
            (seq![a], j)
        },
        None => (Seq::empty(), i),
    }
}

pub proof fn lemma_spec_author_list(s: Seq<u8>, i: int)
    requires
        0 <= i <= s.len(),
    ensures
        i <= spec_author_list(s, i).1 <= s.len(),
    decreases s.len() - i,
{
    lemma_spec_author(s, i);
    match spec_author(s, i) {
        Some((a, j)) => {
            lemma_spec_author_list(s, j);
        },
        None => {},
    }
}

/// A name that the author grammar accepts whole: non-empty, free of
/// the stop bytes `,`, `.` and `\`, and not starting with whitespace
/// (leading whitespace would be eaten by the `>` separator).
pub open spec fn valid_name(n: Seq<u8>) -> bool {
    &&& n.len() > 0
    &&& !crate::text::is_ws(n[0])
    &&& forall|k: int| 0 <= k < n.len() ==> !is_name_stop(#[trigger] n[k])
}

/// A labelled part laid out at `j` (after the whitespace run that
/// starts at `i`) parses to its name and ends where its layout says.
/// The part ends either with a consumed `,`/`.` delimiter, or at the
/// end of input or a backslash, which stop the name unconsumed.
proof fn lemma_part_at(s: Seq<u8>, i: int, j: int, g: bool, nm: Seq<u8>, e: int)
    requires
        0 <= i <= j,
        ws_end(s, i) == j,
        valid_name(nm),
        ({
            let kw = if g {
                kw_given()
            } else {
                kw_family()
            };
            let ns = j + kw.len() + 1;
            &&& j + kw.len() < s.len()
            &&& s.subrange(j, j + kw.len() as int) == kw
            &&& s[j + kw.len()] == B_GT
            &&& ns + nm.len() <= s.len()
            &&& s.subrange(ns, ns + nm.len() as int) == nm
            &&& ({
                ||| (e == ns + nm.len() + 1 && e <= s.len() && (s[e - 1] == B_COMMA || s[e - 1]
                    == B_DOT))
                ||| (e == ns + nm.len() && (e == s.len() || s[e] == B_BACKSLASH))
            })
        }),
    ensures
        spec_author_part(s, i) == Some((g, nm, e)),
{
    let kw = if g {
        kw_given()
    } else {
        kw_family()
    };
    let kl = kw.len() as int;
    let ns = j + kl + 1;
    assert(matches_at(s, j, kw));
    if !g {
        assert(s[j] == kw_family()[0]) by {
            assert(s.subrange(j, j + 6)[0] == s[j]);
        }
        assert(!matches_at(s, j, kw_given())) by {
            if matches_at(s, j, kw_given()) {
                assert(s.subrange(j, j + 5)[0] == s[j]);
            }
        }
    }
    // the separator: no whitespace before `>`, none after it
    lemma_ws_end_is(s, j + kl, j + kl);
    assert(s[ns] == nm[0]) by {
        assert(s.subrange(ns, ns + nm.len() as int)[0] == s[ns]);
    }
    lemma_ws_end_is(s, ns, ns);
    // the name: the full run, stopped by the delimiter, the end of
    // input or a backslash
    let j0 = ns + nm.len() as int;
    assert forall|k: int| ns <= k < j0 implies !is_name_stop(#[trigger] s[k]) by {
        assert(s.subrange(ns, j0)[k - ns] == s[k]);
    }
    assert(j0 == s.len() || is_name_stop(s[j0]));
    lemma_name_end_is(s, ns, j0);
    assert(s.subrange(ns, j0) == nm);
}

/// For all well-formed author entries, `given>X` then `family>Y` and
/// `family>Y` then `given>X` — with or without surrounding whitespace,
/// each part closed by `,` or `.` (the last optionally unterminated) —
/// parse to the identical `{given: X, family: Y}` record, consuming
/// the whole input.
pub proof fn lemma_author_order_irrelevant(
    x: Seq<u8>,
    y: Seq<u8>,
    w0: Seq<u8>,
    t1: Seq<u8>,
    w: Seq<u8>,
    t2: Seq<u8>,
)
    requires
        valid_name(x),
        valid_name(y),
        forall|k: int| 0 <= k < w0.len() ==> crate::text::is_ws(#[trigger] w0[k]),
        forall|k: int| 0 <= k < w.len() ==> crate::text::is_ws(#[trigger] w[k]),
        t1 == seq![B_COMMA] || t1 == seq![B_DOT],
        t2 == seq![B_COMMA] || t2 == seq![B_DOT] || t2 == Seq::<u8>::empty(),
    ensures
        ({
            let s1 = w0 + kw_given() + seq![B_GT] + x + t1 + w + kw_family() + seq![B_GT] + y + t2;
            let s2 = w0 + kw_family() + seq![B_GT] + y + t1 + w + kw_given() + seq![B_GT] + x + t2;
            &&& spec_author(s1, 0) == Some((AuthorV { given: x, family: y }, s1.len() as int))
            &&& spec_author(s2, 0) == Some((AuthorV { given: x, family: y }, s2.len() as int))
        }),
{
    lemma_author_two_parts(w0, true, x, t1, w, y, t2);
    lemma_author_two_parts(w0, false, y, t1, w, x, t2);
}

/// One concrete two-part author entry, first part labelled by
/// `first_given`, parses to the expected record and consumes the
/// whole input.
#[verifier::rlimit(100)]
proof fn lemma_author_two_parts(
    w0: Seq<u8>,
    first_given: bool,
    n1: Seq<u8>,
    t1: Seq<u8>,
    w: Seq<u8>,
    n2: Seq<u8>,
    t2: Seq<u8>,
)
    requires
        valid_name(n1),
        valid_name(n2),
        forall|k: int| 0 <= k < w0.len() ==> crate::text::is_ws(#[trigger] w0[k]),
        forall|k: int| 0 <= k < w.len() ==> crate::text::is_ws(#[trigger] w[k]),
        t1 == seq![B_COMMA] || t1 == seq![B_DOT],
        t2 == seq![B_COMMA] || t2 == seq![B_DOT] || t2 == Seq::<u8>::empty(),
    ensures
        ({
            let kwa = if first_given {
                kw_given()
            } else {
                kw_family()
            };
            let kwb = if first_given {
                kw_family()
            } else {
                kw_given()
            };
            let s = w0 + kwa + seq![B_GT] + n1 + t1 + w + kwb + seq![B_GT] + n2 + t2;
            let a = if first_given {
                AuthorV { given: n1, family: n2 }
            } else {
                AuthorV { given: n2, family: n1 }
            };
            spec_author(s, 0) == Some((a, s.len() as int))
        }),
{
    let kwa = if first_given {
        kw_given()
    } else {
        kw_family()
    };
    let kwb = if first_given {
        kw_family()
    } else {
        kw_given()
    };
    let s = w0 + kwa + seq![B_GT] + n1 + t1 + w + kwb + seq![B_GT] + n2 + t2;
    let la = kwa.len() as int;
    let lb = kwb.len() as int;
    let a1 = w0.len() as int;
    let a2 = a1 + la;
    let a3 = a2 + 1;
    let a4 = a3 + n1.len() as int;
    let a5 = a4 + 1;
    let a6 = a5 + w.len() as int;
    let a7 = a6 + lb;
    let a8 = a7 + 1;
    let a9 = a8 + n2.len() as int;
    let n = a9 + t2.len() as int;
    assert(s.len() == n);
    assert forall|k: int| 0 <= k < a1 implies crate::text::is_ws(#[trigger] s[k]) by {
        assert(s[k] == w0[k]);
    }
    assert(s.subrange(a1, a2) =~= kwa);
    assert(s[a2] == B_GT);
    assert(s.subrange(a3, a4) =~= n1);
    assert(s[a4] == t1[0]);
    assert forall|k: int| a5 <= k < a6 implies crate::text::is_ws(#[trigger] s[k]) by {
        assert(s[k] == w[k - a5]);
    }
    assert(s.subrange(a6, a7) =~= kwb);
    assert(s[a7] == B_GT);
    assert(s.subrange(a8, a9) =~= n2);
    if t2.len() > 0 {
        assert(s[a9] == t2[0]);
    }
    // the first part begins at the start of input
    assert(s[a1] == kwa[0]) by {
        assert(s.subrange(a1, a2)[0] == s[a1]);
    }
    lemma_ws_end_is(s, 0, a1);
    lemma_part_at(s, 0, a1, first_given, n1, a5);
    // the second part begins after the consumed delimiter and the
    // whitespace run
    assert(s[a6] == kwb[0]) by {
        assert(s.subrange(a6, a7)[0] == s[a6]);
    }
    lemma_ws_end_is(s, a5, a6);
    lemma_part_at(s, a5, a6, !first_given, n2, n);
}

/// Parse a name span, consuming one trailing `,` or `.` when present.
fn name(input: &Vec<u8>, pos: usize) -> (r: Option<(Vec<u8>, usize)>)
    requires
        pos <= input@.len(),
    ensures
        r is Some <==> spec_name(input@, pos as int) is Some,
        r matches Some((nm, e)) ==> spec_name(input@, pos as int) == Some((nm@, e as int)),
        r matches Some((nm, e)) ==> pos < e <= input@.len(),
{
    let j = scan_name(input, pos);
    if j == pos {
        None
    } else {
        let nm = copy_range(input, pos, j);
        if j < input.len() && (input[j] == B_COMMA || input[j] == B_DOT) {
            Some((nm, j + 1))
        } else {
            Some((nm, j))
        }
    }
}

/// Parse one labelled part: `given` or `family`, `>`, then a name.
fn author_part(input: &Vec<u8>, pos: usize) -> (r: Option<(bool, Vec<u8>, usize)>)
    requires
        pos <= input@.len(),
    ensures
        r is Some <==> spec_author_part(input@, pos as int) is Some,
        r matches Some((g, nm, e)) ==> spec_author_part(input@, pos as int) == Some(
            (g, nm@, e as int),
        ),
        r matches Some((g, nm, e)) ==> pos < e <= input@.len(),
{
    proof {
        lemma_spec_author_part(input@, pos as int);
    }
    let n = input.len();
    let j = space(input, pos);
    let kwg = kw_given_v();
    let kwf = kw_family_v();
    if match_at(input, j, &kwg) {
        assert(j + 5 <= n);
        part_tail(input, j + 5, true)
    } else if match_at(input, j, &kwf) {
        assert(j + 6 <= n);
        part_tail(input, j + 6, false)
    } else {
        None
    }
}

/// Parse the remainder of a labelled part after its label.
fn part_tail(input: &Vec<u8>, pos: usize, is_given: bool) -> (r: Option<(bool, Vec<u8>, usize)>)
    requires
        pos <= input@.len(),
    ensures
        r is Some <==> spec_part_tail(input@, pos as int, is_given) is Some,
        r matches Some((g, nm, e)) ==> spec_part_tail(input@, pos as int, is_given) == Some(
            (g, nm@, e as int),
        ),
        r matches Some((g, nm, e)) ==> pos <= e <= input@.len(),
{
    let k = space(input, pos);
    if k < input.len() && input[k] == B_GT {
        let m = space(input, k + 1);
        match name(input, m) {
            Some((nm, e)) => Some((is_given, nm, e)),
            None => None,
        }
    } else {
        None
    }
}

/// Parse one author entry: two labelled parts, one `given` and one
/// `family`, in either order; any other combination fails.
pub fn author(input: &Vec<u8>, pos: usize) -> (r: Option<(Author, usize)>)
    requires
        pos <= input@.len(),
    ensures
        r is Some <==> spec_author(input@, pos as int) is Some,
        r matches Some((a, e)) ==> spec_author(input@, pos as int) == Some((a@, e as int)),
        r matches Some((a, e)) ==> pos < e <= input@.len(),
{
    proof {
        lemma_spec_author(input@, pos as int);
    }
    match author_part(input, pos) {
        Some((g1, n1, j)) => match author_part(input, j) {
            Some((g2, n2, k)) => {
                if g1 && !g2 {
                    Some((Author { given: n1, family: n2 }, k))
                } else if !g1 && g2 {
                    Some((Author { given: n2, family: n1 }, k))
                } else {
                    None
                }
            },
            None => None,
        },
        None => None,
    }
}

/// Parse authors greedily until the grammar no longer matches.
pub fn author_list(input: &Vec<u8>, pos: usize) -> (r: (Vec<Author>, usize))
    requires
        pos <= input@.len(),
    ensures
        views_of(r.0@) == spec_author_list(input@, pos as int).0,
        r.1 == spec_author_list(input@, pos as int).1,
        pos <= r.1 <= input@.len(),
{
    let mut acc: Vec<Author> = Vec::new();
    let mut cur = pos;
    loop
        invariant
            pos <= cur <= input@.len(),
            spec_author_list(input@, pos as int).0 == views_of(acc@) + spec_author_list(
                input@,
                cur as int,
            ).0,
            spec_author_list(input@, pos as int).1 == spec_author_list(input@, cur as int).1,
        ensures
            spec_author(input@, cur as int) is None,
            pos <= cur <= input@.len(),
            spec_author_list(input@, pos as int).0 == views_of(acc@),
            spec_author_list(input@, pos as int).1 == cur as int,
        decreases input@.len() - cur,
    {
        match author(input, cur) {
            Some((a, e)) => {
                proof {
                    let rest = spec_author_list(input@, e as int);
                    assert(spec_author_list(input@, cur as int).0 == seq![a@] + rest.0);
                    lemma_views_of_push(acc@, a);
                    assert(views_of(acc@) + (seq![a@] + rest.0) =~= views_of(acc@.push(a))
                        + rest.0);
                }
                acc.push(a);
                cur = e;
            },
            None => {
                proof {
                    assert(spec_author_list(input@, cur as int).0 =~= Seq::<AuthorV>::empty());
                    assert(views_of(acc@) + Seq::<AuthorV>::empty() =~= views_of(acc@));
                }
                break ;
            },
        }
    }
    (acc, cur)
}

} // verus!
