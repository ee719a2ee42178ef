//! Byte-level helpers shared by the parsers and the renderer: character
//! classes, maximal-run scanners and pattern search over byte sequences.

use vstd::prelude::*;

verus! {

/// Backslash, the command escape character.
pub const B_BACKSLASH: u8 = 92;

/// Double quote, escaped in rendered YAML scalars.
pub const B_QUOTE: u8 = 34;

/// Comma.
pub const B_COMMA: u8 = 44;

/// Full stop.
pub const B_DOT: u8 = 46;

/// `>`, the label/name divider in an author part.
pub const B_GT: u8 = 62;

/// `=`, the key/value divisor in a metadata field.
pub const B_EQ: u8 = 61;

/// `{` opening a braced command argument.
pub const B_LBRACE: u8 = 123;

/// `}` closing a braced command argument.
pub const B_RBRACE: u8 = 125;

/// `_`, the Markdown italic marker.
pub const B_UNDERSCORE: u8 = 95;

/// `(` opening a rendered citation.
pub const B_LPAREN: u8 = 40;

/// `)` closing a rendered citation.
pub const B_RPAREN: u8 = 41;

/// A byte of insignificant whitespace: space, tab, CR or LF.
pub open spec fn is_ws(b: u8) -> bool {
    b == 32 || b == 9 || b == 13 || b == 10
}

/// A byte that ends an author name: `,`, `.` or `\`.
pub open spec fn is_name_stop(b: u8) -> bool {
    b == B_COMMA || b == B_DOT || b == B_BACKSLASH
}

/// Whether byte `b` is whitespace (executable mirror of [`is_ws`]).
pub fn byte_is_ws(b: u8) -> (r: bool)
    ensures
        r == is_ws(b),
{
    b == 32 || b == 9 || b == 13 || b == 10
}

/// End of the maximal whitespace run that starts at `i`.
pub open spec fn ws_end(s: Seq<u8>, i: int) -> int
    decreases s.len() - i,
{
    if 0 <= i && i < s.len() && is_ws(s[i]) {
        ws_end(s, i + 1)
    } else {
        i
    }
}

pub proof fn lemma_ws_end(s: Seq<u8>, i: int)
    requires
        0 <= i <= s.len(),
    ensures
        i <= ws_end(s, i) <= s.len(),
        forall|k: int| i <= k < ws_end(s, i) ==> is_ws(#[trigger] s[k]),
        ws_end(s, i) < s.len() ==> !is_ws(s[ws_end(s, i)]),
    decreases s.len() - i,
{
    if i < s.len() && is_ws(s[i]) {
        lemma_ws_end(s, i + 1);
    }
}

pub proof fn lemma_ws_end_is(s: Seq<u8>, i: int, j: int)
    requires
        0 <= i <= j <= s.len(),
        forall|k: int| i <= k < j ==> is_ws(#[trigger] s[k]),
        j == s.len() || !is_ws(s[j]),
    ensures
        ws_end(s, i) == j,
    decreases j - i,
{
    if i < j {
        lemma_ws_end_is(s, i + 1, j);
    }
}

/// Advance `pos` past the maximal whitespace run.
pub fn scan_ws(input: &Vec<u8>, pos: usize) -> (r: usize)
    requires
        pos <= input@.len(),
    ensures
        r == ws_end(input@, pos as int),
        pos <= r <= input@.len(),
{
    let mut j = pos;
    while j < input.len() && byte_is_ws(input[j])
        invariant
            pos <= j <= input@.len(),
            forall|k: int| pos <= k < j ==> is_ws(#[trigger] input@[k]),
        decreases input@.len() - j,
    {
        j = j + 1;
    }
    proof {
        lemma_ws_end_is(input@, pos as int, j as int);
    }
    j
}

/// End of the maximal run of bytes allowed in an author name (no `,`,
/// `.` or `\`) that starts at `i`.
pub open spec fn name_end(s: Seq<u8>, i: int) -> int
    decreases s.len() - i,
{
    if 0 <= i && i < s.len() && !is_name_stop(s[i]) {
        name_end(s, i + 1)
    } else {
        i
    }
}

pub proof fn lemma_name_end(s: Seq<u8>, i: int)
    requires
        0 <= i <= s.len(),
    ensures
        i <= name_end(s, i) <= s.len(),
        forall|k: int| i <= k < name_end(s, i) ==> !is_name_stop(#[trigger] s[k]),
        name_end(s, i) < s.len() ==> is_name_stop(s[name_end(s, i)]),
    decreases s.len() - i,
{
    if i < s.len() && !is_name_stop(s[i]) {
        lemma_name_end(s, i + 1);
    }
}

pub proof fn lemma_name_end_is(s: Seq<u8>, i: int, j: int)
    requires
        0 <= i <= j <= s.len(),
        forall|k: int| i <= k < j ==> !is_name_stop(#[trigger] s[k]),
        j == s.len() || is_name_stop(s[j]),
    ensures
        name_end(s, i) == j,
    decreases j - i,
{
    if i < j {
        lemma_name_end_is(s, i + 1, j);
    }
}

/// Advance `pos` past the maximal run of author-name bytes.
pub fn scan_name(input: &Vec<u8>, pos: usize) -> (r: usize)
    requires
        pos <= input@.len(),
    ensures
        r == name_end(input@, pos as int),
        pos <= r <= input@.len(),
{
    let mut j = pos;
    while j < input.len() && input[j] != B_COMMA && input[j] != B_DOT && input[j] != B_BACKSLASH
        invariant
            pos <= j <= input@.len(),
            forall|k: int| pos <= k < j ==> !is_name_stop(#[trigger] input@[k]),
        decreases input@.len() - j,
    {
        j = j + 1;
    }
    proof {
        lemma_name_end_is(input@, pos as int, j as int);
    }
    j
}

/// End of the maximal run of non-backslash bytes (a plain-text span in
/// an abstract) that starts at `i`.
pub open spec fn text_end(s: Seq<u8>, i: int) -> int
    decreases s.len() - i,
{
    if 0 <= i && i < s.len() && s[i] != B_BACKSLASH {
        text_end(s, i + 1)
    } else {
        i
    }
}

pub proof fn lemma_text_end(s: Seq<u8>, i: int)
    requires
        0 <= i <= s.len(),
    ensures
        i <= text_end(s, i) <= s.len(),
        forall|k: int| i <= k < text_end(s, i) ==> #[trigger] s[k] != B_BACKSLASH,
        text_end(s, i) < s.len() ==> s[text_end(s, i)] == B_BACKSLASH,
    decreases s.len() - i,
{
    if i < s.len() && s[i] != B_BACKSLASH {
        lemma_text_end(s, i + 1);
    }
}

pub proof fn lemma_text_end_is(s: Seq<u8>, i: int, j: int)
    requires
        0 <= i <= j <= s.len(),
        forall|k: int| i <= k < j ==> #[trigger] s[k] != B_BACKSLASH,
        j == s.len() || s[j] == B_BACKSLASH,
    ensures
        text_end(s, i) == j,
    decreases j - i,
{
    if i < j {
        lemma_text_end_is(s, i + 1, j);
    }
}

/// Advance `pos` past the maximal run of non-backslash bytes.
pub fn scan_text(input: &Vec<u8>, pos: usize) -> (r: usize)
    requires
        pos <= input@.len(),
    ensures
        r == text_end(input@, pos as int),
        pos <= r <= input@.len(),
{
    let mut j = pos;
    while j < input.len() && input[j] != B_BACKSLASH
        invariant
            pos <= j <= input@.len(),
            forall|k: int| pos <= k < j ==> #[trigger] input@[k] != B_BACKSLASH,
        decreases input@.len() - j,
    {
        j = j + 1;
    }
    proof {
        lemma_text_end_is(input@, pos as int, j as int);
    }
    j
}

/// End of the maximal run of non-whitespace bytes that starts at `i`.
pub open spec fn nonws_end(s: Seq<u8>, i: int) -> int
    decreases s.len() - i,
{
    if 0 <= i && i < s.len() && !is_ws(s[i]) {
        nonws_end(s, i + 1)
    } else {
        i
    }
}

pub proof fn lemma_nonws_end(s: Seq<u8>, i: int)
    requires
        0 <= i <= s.len(),
    ensures
        i <= nonws_end(s, i) <= s.len(),
        forall|k: int| i <= k < nonws_end(s, i) ==> !is_ws(#[trigger] s[k]),
        nonws_end(s, i) < s.len() ==> is_ws(s[nonws_end(s, i)]),
    decreases s.len() - i,
{
    if i < s.len() && !is_ws(s[i]) {
        lemma_nonws_end(s, i + 1);
    }
}

pub proof fn lemma_nonws_end_is(s: Seq<u8>, i: int, j: int)
    requires
        0 <= i <= j <= s.len(),
        forall|k: int| i <= k < j ==> !is_ws(#[trigger] s[k]),
        j == s.len() || is_ws(s[j]),
    ensures
        nonws_end(s, i) == j,
    decreases j - i,
{
    if i < j {
        lemma_nonws_end_is(s, i + 1, j);
    }
}

/// Advance `pos` past the maximal run of non-whitespace bytes.
pub fn scan_nonws(input: &Vec<u8>, pos: usize) -> (r: usize)
    requires
        pos <= input@.len(),
    ensures
        r == nonws_end(input@, pos as int),
        pos <= r <= input@.len(),
{
    let mut j = pos;
    while j < input.len() && !byte_is_ws(input[j])
        invariant
            pos <= j <= input@.len(),
            forall|k: int| pos <= k < j ==> !is_ws(#[trigger] input@[k]),
        decreases input@.len() - j,
    {
        j = j + 1;
    }
    proof {
        lemma_nonws_end_is(input@, pos as int, j as int);
    }
    j
}

/// End of the maximal run of non-`}` bytes (a braced command argument)
/// that starts at `i`.
pub open spec fn arg_end(s: Seq<u8>, i: int) -> int
    decreases s.len() - i,
{
    if 0 <= i && i < s.len() && s[i] != B_RBRACE {
        arg_end(s, i + 1)
    } else {
        i
    }
}

pub proof fn lemma_arg_end(s: Seq<u8>, i: int)
    requires
        0 <= i <= s.len(),
    ensures
        i <= arg_end(s, i) <= s.len(),
        forall|k: int| i <= k < arg_end(s, i) ==> #[trigger] s[k] != B_RBRACE,
        arg_end(s, i) < s.len() ==> s[arg_end(s, i)] == B_RBRACE,
    decreases s.len() - i,
{
    if i < s.len() && s[i] != B_RBRACE {
        lemma_arg_end(s, i + 1);
    }
}

pub proof fn lemma_arg_end_is(s: Seq<u8>, i: int, j: int)
    requires
        0 <= i <= j <= s.len(),
        forall|k: int| i <= k < j ==> #[trigger] s[k] != B_RBRACE,
        j == s.len() || s[j] == B_RBRACE,
    ensures
        arg_end(s, i) == j,
    decreases j - i,
{
    if i < j {
        lemma_arg_end_is(s, i + 1, j);
    }
}

/// Advance `pos` past the maximal run of non-`}` bytes.
pub fn scan_arg(input: &Vec<u8>, pos: usize) -> (r: usize)
    requires
        pos <= input@.len(),
    ensures
        r == arg_end(input@, pos as int),
        pos <= r <= input@.len(),
{
    let mut j = pos;
    while j < input.len() && input[j] != B_RBRACE
        invariant
            pos <= j <= input@.len(),
            forall|k: int| pos <= k < j ==> #[trigger] input@[k] != B_RBRACE,
        decreases input@.len() - j,
    {
        j = j + 1;
    }
    proof {
        lemma_arg_end_is(input@, pos as int, j as int);
    }
    j
}

/// End of the maximal run of non-comma bytes that starts at `i`; the
/// surname of a bibliography author name ends there.
pub open spec fn comma_end(s: Seq<u8>, i: int) -> int
    decreases s.len() - i,
{
    if 0 <= i && i < s.len() && s[i] != B_COMMA {
        comma_end(s, i + 1)
    } else {
        i
    }
}

pub proof fn lemma_comma_end_is(s: Seq<u8>, i: int, j: int)
    requires
        0 <= i <= j <= s.len(),
        forall|k: int| i <= k < j ==> #[trigger] s[k] != B_COMMA,
        j == s.len() || s[j] == B_COMMA,
    ensures
        comma_end(s, i) == j,
    decreases j - i,
{
    if i < j {
        lemma_comma_end_is(s, i + 1, j);
    }
}

/// Advance `pos` past the maximal run of non-comma bytes.
pub fn scan_comma(input: &Vec<u8>, pos: usize) -> (r: usize)
    requires
        pos <= input@.len(),
    ensures
        r == comma_end(input@, pos as int),
        pos <= r <= input@.len(),
{
    let mut j = pos;
    while j < input.len() && input[j] != B_COMMA
        invariant
            pos <= j <= input@.len(),
            forall|k: int| pos <= k < j ==> #[trigger] input@[k] != B_COMMA,
        decreases input@.len() - j,
    {
        j = j + 1;
    }
    proof {
        lemma_comma_end_is(input@, pos as int, j as int);
    }
    j
}

/// The pattern `pat` occurs in `s` at position `i`.
pub open spec fn matches_at(s: Seq<u8>, i: int, pat: Seq<u8>) -> bool {
    0 <= i && i + pat.len() <= s.len() && s.subrange(i, i + pat.len() as int) == pat
}

/// The least position `j >= i` where `pat` occurs in `s`, if any.
pub open spec fn find_pat(s: Seq<u8>, i: int, pat: Seq<u8>) -> Option<int>
    decreases s.len() - i,
{
    if i < 0 || i + pat.len() > s.len() {
        None
    } else if pat.len() == 0 || matches_at(s, i, pat) {
        Some(i)
    } else {
        find_pat(s, i + 1, pat)
    }
}

pub proof fn lemma_find_pat(s: Seq<u8>, i: int, pat: Seq<u8>)
    requires
        0 <= i <= s.len(),
    ensures
        find_pat(s, i, pat) matches Some(j) ==> i <= j && matches_at(s, j, pat),
        find_pat(s, i, pat) is None ==> forall|k: int| i <= k ==> !matches_at(s, k, pat),
    decreases s.len() - i,
{
    if i + pat.len() > s.len() {
        assert forall|k: int| i <= k implies !matches_at(s, k, pat) by {}
    } else if pat.len() == 0 {
        assert(s.subrange(i, i) =~= pat);
        assert(matches_at(s, i, pat));
    } else if matches_at(s, i, pat) {
    } else {
        lemma_find_pat(s, i + 1, pat);
    }
}

pub proof fn lemma_find_pat_is_some(s: Seq<u8>, i: int, j: int, pat: Seq<u8>)
    requires
        0 <= i <= j,
        matches_at(s, j, pat),
        forall|k: int| i <= k < j ==> !matches_at(s, k, pat),
    ensures
        find_pat(s, i, pat) == Some(j),
    decreases j - i,
{
    if i < j {
        if pat.len() == 0 {
            assert(s.subrange(i, i) =~= pat);
            assert(matches_at(s, i, pat));
        }
        lemma_find_pat_is_some(s, i + 1, j, pat);
    }
}

pub proof fn lemma_find_pat_is_none(s: Seq<u8>, i: int, pat: Seq<u8>)
    requires
        0 <= i,
        forall|k: int| i <= k ==> !matches_at(s, k, pat),
    ensures
        find_pat(s, i, pat) is None,
    decreases s.len() - i,
{
    if i + pat.len() <= s.len() {
        assert(pat.len() > 0) by {
            if pat.len() == 0 {
                assert(s.subrange(i, i) =~= pat);
                assert(matches_at(s, i, pat));
            }
        }
        lemma_find_pat_is_none(s, i + 1, pat);
    }
}

/// Whether `pat` occurs in `input` at position `pos`.
pub fn match_at(input: &Vec<u8>, pos: usize, pat: &Vec<u8>) -> (r: bool)
    requires
        pos <= input@.len(),
    ensures
        r == matches_at(input@, pos as int, pat@),
{
    if input.len() - pos < pat.len() {
        return false;
    }
    let mut j: usize = 0;
    while j < pat.len()
        invariant
            j <= pat@.len(),
            pos + pat@.len() <= input@.len() <= usize::MAX,
            forall|m: int| 0 <= m < j ==> input@[pos + m] == #[trigger] pat@[m],
        decreases pat@.len() - j,
    {
        if input[pos + j] != pat[j] {
            proof {
                let sub = input@.subrange(pos as int, pos + pat@.len() as int);
                assert(sub[j as int] == input@[pos + j]);
            }
            return false;
        }
        j = j + 1;
    }
    proof {
        assert(input@.subrange(pos as int, pos + pat@.len() as int) =~= pat@);
    }
    true
}

/// The least position at or after `pos` where `pat` occurs in `input`.
pub fn find_pattern(input: &Vec<u8>, pos: usize, pat: &Vec<u8>) -> (r: Option<usize>)
    requires
        pos <= input@.len(),
    ensures
        match r {
            Some(j) => pos <= j && j + pat@.len() <= input@.len() && find_pat(
                input@,
                pos as int,
                pat@,
            ) == Some(j as int),
            None => find_pat(input@, pos as int, pat@) is None,
        },
{
    let mut j = pos;
    while j < input.len()
        invariant
            pos <= j <= input@.len(),
            forall|k: int| pos <= k < j ==> !matches_at(input@, k, pat@),
        decreases input@.len() - j,
    {
        if match_at(input, j, pat) {
            proof {
                lemma_find_pat_is_some(input@, pos as int, j as int, pat@);
            }
            return Some(j);
        }
        j = j + 1;
    }
    if match_at(input, input.len(), pat) {
        proof {
            lemma_find_pat_is_some(input@, pos as int, input@.len() as int, pat@);
        }
        return Some(input.len());
    }
    proof {
        assert forall|k: int| pos <= k implies !matches_at(input@, k, pat@) by {
            if k > input@.len() {
            } else if k == input@.len() {
            }
        }
        lemma_find_pat_is_none(input@, pos as int, pat@);
    }
    None
}

/// Copy `input[a..b]` into a fresh vector.
pub fn copy_range(input: &Vec<u8>, a: usize, b: usize) -> (r: Vec<u8>)
    requires
        a <= b <= input@.len(),
    ensures
        r@ == input@.subrange(a as int, b as int),
{
    let mut v: Vec<u8> = Vec::new();
    let mut j = a;
    while j < b
        invariant
            a <= j <= b <= input@.len(),
            v@ == input@.subrange(a as int, j as int),
        decreases b - j,
    {
        v.push(input[j]);
        assert(v@ =~= input@.subrange(a as int, j + 1 as int));
        j = j + 1;
    }
    v
}

/// How one byte renders inside a quoted YAML scalar: a double quote
/// gains a backslash, every other byte stands as it is.
pub open spec fn esc_byte(b: u8) -> Seq<u8> {
    if b == B_QUOTE {
        seq![B_BACKSLASH, B_QUOTE]
    } else {
        seq![b]
    }
}

/// `s` with every double quote escaped as `\"`.
pub open spec fn esc_spec(s: Seq<u8>) -> Seq<u8>
    decreases s.len(),
{
    if s.len() == 0 {
        Seq::empty()
    } else {
        esc_spec(s.drop_last()) + esc_byte(s.last())
    }
}

/// Append `s` to `out`, escaping double quotes.
pub fn esc_push(out: &mut Vec<u8>, s: &Vec<u8>)
    ensures
        final(out)@ == old(out)@ + esc_spec(s@),
{
    let mut j: usize = 0;
    while j < s.len()
        invariant
            j <= s@.len(),
            out@ == old(out)@ + esc_spec(s@.subrange(0, j as int)),
        decreases s@.len() - j,
    {
        let ghost pre = out@;
        let b = s[j];
        if b == B_QUOTE {
            out.push(B_BACKSLASH);
            out.push(B_QUOTE);
        } else {
            out.push(b);
        }
        proof {
            let p1 = s@.subrange(0, j + 1 as int);
            assert(p1.drop_last() =~= s@.subrange(0, j as int));
            assert(out@ =~= pre + esc_byte(s@[j as int]));
            assert(out@ =~= old(out)@ + esc_spec(p1));
        }
        j = j + 1;
    }
    proof {
        assert(s@.subrange(0, s@.len() as int) =~= s@);
    }
}

/// The pieces of `s` split on non-overlapping occurrences of `pat`,
/// leftmost first; the separators are dropped.  With no occurrence the
/// single piece is `s` itself.
pub open spec fn split_pat(s: Seq<u8>, pat: Seq<u8>) -> Seq<Seq<u8>>
    decreases s.len(),
{
    if pat.len() == 0 {
        seq![s]
    } else {
        match find_pat(s, 0, pat) {
            Some(k) => if 0 <= k && k + pat.len() <= s.len() {
                seq![s.subrange(0, k)] + split_pat(s.subrange(k + pat.len(), s.len() as int), pat)
            } else {
                seq![s]
            },
            None => seq![s],
        }
    }
}

/// The views of a vector of byte vectors.
pub open spec fn byte_seqs(s: Seq<Vec<u8>>) -> Seq<Seq<u8>> {
    s.map_values(|v: Vec<u8>| v@)
}

pub proof fn lemma_byte_seqs_push(s: Seq<Vec<u8>>, v: Vec<u8>)
    ensures
        byte_seqs(s.push(v)) == byte_seqs(s).push(v@),
{
    assert forall|i: int| 0 <= i < s.len() + 1 implies byte_seqs(s.push(v))[i] == byte_seqs(
        s,
    ).push(v@)[i] by {
        if i < s.len() {
            assert(s.push(v)[i] == s[i]);
        } else {
            assert(s.push(v)[i] == v);
        }
    }
    assert(byte_seqs(s.push(v)) =~= byte_seqs(s).push(v@));
}

/// Split `s` on every occurrence of `pat`.
pub fn split_by(s: &Vec<u8>, pat: &Vec<u8>) -> (r: Vec<Vec<u8>>)
    requires
        pat@.len() > 0,
    ensures
        byte_seqs(r@) == split_pat(s@, pat@),
{
    let mut pieces: Vec<Vec<u8>> = Vec::new();
    let mut rem: Vec<u8> = copy_range(s, 0, s.len());
    proof {
        assert(rem@ =~= s@);
        assert(byte_seqs(pieces@) + split_pat(rem@, pat@) =~= split_pat(s@, pat@));
    }
    loop
        invariant_except_break
            pat@.len() > 0,
            byte_seqs(pieces@) + split_pat(rem@, pat@) == split_pat(s@, pat@),
        ensures
            byte_seqs(pieces@) == split_pat(s@, pat@),
        decreases rem@.len(),
    {
        match find_pattern(&rem, 0, pat) {
            Some(k) => {
                let rn = rem.len();
                let piece = copy_range(&rem, 0, k);
                assert(k + pat@.len() <= rn);
                let new_rem = copy_range(&rem, k + pat.len(), rn);
                proof {
                    assert(split_pat(rem@, pat@) == seq![rem@.subrange(0, k as int)] + split_pat(
                        new_rem@,
                        pat@,
                    ));
                    lemma_byte_seqs_push(pieces@, piece);
                    assert(byte_seqs(pieces@) + (seq![piece@] + split_pat(new_rem@, pat@))
                        =~= byte_seqs(pieces@.push(piece)) + split_pat(new_rem@, pat@));
                }
                pieces.push(piece);
                rem = new_rem;
            },
            None => {
                proof {
                    assert(split_pat(rem@, pat@) == seq![rem@]);
                    lemma_byte_seqs_push(pieces@, rem);
                    assert(byte_seqs(pieces@) + seq![rem@] =~= byte_seqs(pieces@.push(rem)));
                }
                pieces.push(rem);
                break ;
            },
        }
    }
    pieces
}

/// Whether two byte vectors hold the same bytes.
pub fn bytes_eq(a: &Vec<u8>, b: &Vec<u8>) -> (r: bool)
    ensures
        r == (a@ == b@),
{
    if a.len() != b.len() {
        return false;
    }
    let mut j: usize = 0;
    while j < a.len()
        invariant
            j <= a@.len() == b@.len(),
            forall|k: int| 0 <= k < j ==> a@[k] == #[trigger] b@[k],
        decreases a@.len() - j,
    {
        if a[j] != b[j] {
            return false;
        }
        j = j + 1;
    }
    proof {
        assert(a@ =~= b@);
    }
    true
}

/// Append all of `s` to `out`.
pub fn push_all(out: &mut Vec<u8>, s: &Vec<u8>)
    ensures
        final(out)@ == old(out)@ + s@,
{
    let mut j: usize = 0;
    while j < s.len()
        invariant
            j <= s@.len(),
            out@ == old(out)@ + s@.subrange(0, j as int),
        decreases s@.len() - j,
    {
        out.push(s[j]);
        assert(out@ =~= old(out)@ + s@.subrange(0, j + 1 as int));
        j = j + 1;
    }
    assert(out@ =~= old(out)@ + s@);
}

} // verus!
