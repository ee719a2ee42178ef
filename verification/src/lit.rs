//! The fixed byte strings of the grammar and of the rendered output.
//!
//! Each literal exists twice: a `spec` function giving its bytes as a
//! sequence, and an executable builder (suffixed `_v`) returning the
//! same bytes as a vector.

use vstd::prelude::*;

verus! {
/// The keyword `given`.
pub open spec fn kw_given() -> Seq<u8> {
    seq![103u8, 105u8, 118u8, 101u8, 110u8]
}

/// The bytes of [`kw_given`].
pub fn kw_given_v() -> (r: Vec<u8>)
    ensures
        r@ == kw_given(),
{
    let mut v: Vec<u8> = Vec::new();
    v.push(103);
    v.push(105);
    v.push(118);
    v.push(101);
    v.push(110);
    proof {
        assert(v@ =~= kw_given());
    }
    v
}

/// The keyword `family`.
pub open spec fn kw_family() -> Seq<u8> {
    seq![102u8, 97u8, 109u8, 105u8, 108u8, 121u8]
}

/// The bytes of [`kw_family`].
pub fn kw_family_v() -> (r: Vec<u8>)
    ensures
        r@ == kw_family(),
{
    let mut v: Vec<u8> = Vec::new();
    v.push(102);
    v.push(97);
    v.push(109);
    v.push(105);
    v.push(108);
    v.push(121);
    proof {
        assert(v@ =~= kw_family());
    }
    v
}

/// The command name `textit`.
pub open spec fn kw_textit() -> Seq<u8> {
    seq![116u8, 101u8, 120u8, 116u8, 105u8, 116u8]
}

/// The bytes of [`kw_textit`].
pub fn kw_textit_v() -> (r: Vec<u8>)
    ensures
        r@ == kw_textit(),
{
    let mut v: Vec<u8> = Vec::new();
    v.push(116);
    v.push(101);
    v.push(120);
    v.push(116);
    v.push(105);
    v.push(116);
    proof {
        assert(v@ =~= kw_textit());
    }
    v
}

/// The command name `citeyear`.
pub open spec fn kw_citeyear() -> Seq<u8> {
    seq![99u8, 105u8, 116u8, 101u8, 121u8, 101u8, 97u8, 114u8]
}

/// The bytes of [`kw_citeyear`].
pub fn kw_citeyear_v() -> (r: Vec<u8>)
    ensures
        r@ == kw_citeyear(),
{
    let mut v: Vec<u8> = Vec::new();
    v.push(99);
    v.push(105);
    v.push(116);
    v.push(101);
    v.push(121);
    v.push(101);
    v.push(97);
    v.push(114);
    proof {
        assert(v@ =~= kw_citeyear());
    }
    v
}

/// The command name `cite`.
pub open spec fn kw_cite() -> Seq<u8> {
    seq![99u8, 105u8, 116u8, 101u8]
}

/// The bytes of [`kw_cite`].
pub fn kw_cite_v() -> (r: Vec<u8>)
    ensures
        r@ == kw_cite(),
{
    let mut v: Vec<u8> = Vec::new();
    v.push(99);
    v.push(105);
    v.push(116);
    v.push(101);
    proof {
        assert(v@ =~= kw_cite());
    }
    v
}

/// The field keyword `authors`.
pub open spec fn kw_authors() -> Seq<u8> {
    seq![97u8, 117u8, 116u8, 104u8, 111u8, 114u8, 115u8]
}

/// The bytes of [`kw_authors`].
pub fn kw_authors_v() -> (r: Vec<u8>)
    ensures
        r@ == kw_authors(),
{
    let mut v: Vec<u8> = Vec::new();
    v.push(97);
    v.push(117);
    v.push(116);
    v.push(104);
    v.push(111);
    v.push(114);
    v.push(115);
    proof {
        assert(v@ =~= kw_authors());
    }
    v
}

/// The field keyword `title`, also the `title` bibliography tag.
pub open spec fn kw_title() -> Seq<u8> {
    seq![116u8, 105u8, 116u8, 108u8, 101u8]
}

/// The bytes of [`kw_title`].
pub fn kw_title_v() -> (r: Vec<u8>)
    ensures
        r@ == kw_title(),
{
    let mut v: Vec<u8> = Vec::new();
    v.push(116);
    v.push(105);
    v.push(116);
    v.push(108);
    v.push(101);
    proof {
        assert(v@ =~= kw_title());
    }
    v
}

/// The field keyword `first_page`.
pub open spec fn kw_first_page() -> Seq<u8> {
    seq![102u8, 105u8, 114u8, 115u8, 116u8, 95u8, 112u8, 97u8, 103u8, 101u8]
}

/// The bytes of [`kw_first_page`].
pub fn kw_first_page_v() -> (r: Vec<u8>)
    ensures
        r@ == kw_first_page(),
{
    let mut v: Vec<u8> = Vec::new();
    v.push(102);
    v.push(105);
    v.push(114);
    v.push(115);
    v.push(116);
    v.push(95);
    v.push(112);
    v.push(97);
    v.push(103);
    v.push(101);
    proof {
        assert(v@ =~= kw_first_page());
    }
    v
}

/// The field keyword `last_page`.
pub open spec fn kw_last_page() -> Seq<u8> {
    seq![108u8, 97u8, 115u8, 116u8, 95u8, 112u8, 97u8, 103u8, 101u8]
}

/// The bytes of [`kw_last_page`].
pub fn kw_last_page_v() -> (r: Vec<u8>)
    ensures
        r@ == kw_last_page(),
{
    let mut v: Vec<u8> = Vec::new();
    v.push(108);
    v.push(97);
    v.push(115);
    v.push(116);
    v.push(95);
    v.push(112);
    v.push(97);
    v.push(103);
    v.push(101);
    proof {
        assert(v@ =~= kw_last_page());
    }
    v
}

/// The field keyword `abstract`.
pub open spec fn kw_abstract() -> Seq<u8> {
    seq![97u8, 98u8, 115u8, 116u8, 114u8, 97u8, 99u8, 116u8]
}

/// The bytes of [`kw_abstract`].
pub fn kw_abstract_v() -> (r: Vec<u8>)
    ensures
        r@ == kw_abstract(),
{
    let mut v: Vec<u8> = Vec::new();
    v.push(97);
    v.push(98);
    v.push(115);
    v.push(116);
    v.push(114);
    v.push(97);
    v.push(99);
    v.push(116);
    proof {
        assert(v@ =~= kw_abstract());
    }
    v
}

/// The field keyword `keywords`.
pub open spec fn kw_keywords() -> Seq<u8> {
    seq![107u8, 101u8, 121u8, 119u8, 111u8, 114u8, 100u8, 115u8]
}

/// The bytes of [`kw_keywords`].
pub fn kw_keywords_v() -> (r: Vec<u8>)
    ensures
        r@ == kw_keywords(),
{
    let mut v: Vec<u8> = Vec::new();
    v.push(107);
    v.push(101);
    v.push(121);
    v.push(119);
    v.push(111);
    v.push(114);
    v.push(100);
    v.push(115);
    proof {
        assert(v@ =~= kw_keywords());
    }
    v
}

/// The field keyword `section`.
pub open spec fn kw_section() -> Seq<u8> {
    seq![115u8, 101u8, 99u8, 116u8, 105u8, 111u8, 110u8]
}

/// The bytes of [`kw_section`].
pub fn kw_section_v() -> (r: Vec<u8>)
    ensures
        r@ == kw_section(),
{
    let mut v: Vec<u8> = Vec::new();
    v.push(115);
    v.push(101);
    v.push(99);
    v.push(116);
    v.push(105);
    v.push(111);
    v.push(110);
    proof {
        assert(v@ =~= kw_section());
    }
    v
}

/// The field keyword `number`.
pub open spec fn kw_number() -> Seq<u8> {
    seq![110u8, 117u8, 109u8, 98u8, 101u8, 114u8]
}

/// The bytes of [`kw_number`].
pub fn kw_number_v() -> (r: Vec<u8>)
    ensures
        r@ == kw_number(),
{
    let mut v: Vec<u8> = Vec::new();
    v.push(110);
    v.push(117);
    v.push(109);
    v.push(98);
    v.push(101);
    v.push(114);
    proof {
        assert(v@ =~= kw_number());
    }
    v
}

/// The field keyword `semester`.
pub open spec fn kw_semester() -> Seq<u8> {
    seq![115u8, 101u8, 109u8, 101u8, 115u8, 116u8, 101u8, 114u8]
}

/// The bytes of [`kw_semester`].
pub fn kw_semester_v() -> (r: Vec<u8>)
    ensures
        r@ == kw_semester(),
{
    let mut v: Vec<u8> = Vec::new();
    v.push(115);
    v.push(101);
    v.push(109);
    v.push(101);
    v.push(115);
    v.push(116);
    v.push(101);
    v.push(114);
    proof {
        assert(v@ =~= kw_semester());
    }
    v
}

/// The field keyword `year`, also the `year` bibliography tag.
pub open spec fn kw_year() -> Seq<u8> {
    seq![121u8, 101u8, 97u8, 114u8]
}

/// The bytes of [`kw_year`].
pub fn kw_year_v() -> (r: Vec<u8>)
    ensures
        r@ == kw_year(),
{
    let mut v: Vec<u8> = Vec::new();
    v.push(121);
    v.push(101);
    v.push(97);
    v.push(114);
    proof {
        assert(v@ =~= kw_year());
    }
    v
}

/// The field terminator `\\par`.
pub open spec fn par_tag() -> Seq<u8> {
    seq![92u8, 112u8, 97u8, 114u8]
}

/// The bytes of [`par_tag`].
pub fn par_tag_v() -> (r: Vec<u8>)
    ensures
        r@ == par_tag(),
{
    let mut v: Vec<u8> = Vec::new();
    v.push(92);
    v.push(112);
    v.push(97);
    v.push(114);
    proof {
        assert(v@ =~= par_tag());
    }
    v
}

/// The `author` bibliography tag.
pub open spec fn tag_author() -> Seq<u8> {
    seq![97u8, 117u8, 116u8, 104u8, 111u8, 114u8]
}

/// The bytes of [`tag_author`].
pub fn tag_author_v() -> (r: Vec<u8>)
    ensures
        r@ == tag_author(),
{
    let mut v: Vec<u8> = Vec::new();
    v.push(97);
    v.push(117);
    v.push(116);
    v.push(104);
    v.push(111);
    v.push(114);
    proof {
        assert(v@ =~= tag_author());
    }
    v
}

/// The fallback year text `s.d.` (*sem data*).
pub open spec fn sd_mark() -> Seq<u8> {
    seq![115u8, 46u8, 100u8, 46u8]
}

/// The bytes of [`sd_mark`].
pub fn sd_mark_v() -> (r: Vec<u8>)
    ensures
        r@ == sd_mark(),
{
    let mut v: Vec<u8> = Vec::new();
    v.push(115);
    v.push(46);
    v.push(100);
    v.push(46);
    proof {
        assert(v@ =~= sd_mark());
    }
    v
}

/// The separator between authors inside an `author` tag value.
pub open spec fn and_sep() -> Seq<u8> {
    seq![32u8, 65u8, 78u8, 68u8, 32u8]
}

/// The bytes of [`and_sep`].
pub fn and_sep_v() -> (r: Vec<u8>)
    ensures
        r@ == and_sep(),
{
    let mut v: Vec<u8> = Vec::new();
    v.push(32);
    v.push(65);
    v.push(78);
    v.push(68);
    v.push(32);
    proof {
        assert(v@ =~= and_sep());
    }
    v
}

/// The separator between surnames in a rendered citation.
pub open spec fn semi_sep() -> Seq<u8> {
    seq![59u8, 32u8]
}

/// The bytes of [`semi_sep`].
pub fn semi_sep_v() -> (r: Vec<u8>)
    ensures
        r@ == semi_sep(),
{
    let mut v: Vec<u8> = Vec::new();
    v.push(59);
    v.push(32);
    proof {
        assert(v@ =~= semi_sep());
    }
    v
}

/// The separator between author and year in a rendered citation.
pub open spec fn comma_sep() -> Seq<u8> {
    seq![44u8, 32u8]
}

/// The bytes of [`comma_sep`].
pub fn comma_sep_v() -> (r: Vec<u8>)
    ensures
        r@ == comma_sep(),
{
    let mut v: Vec<u8> = Vec::new();
    v.push(44);
    v.push(32);
    proof {
        assert(v@ =~= comma_sep());
    }
    v
}

/// The plain-text et-al suffix of a long author list.
pub open spec fn et_al_plain() -> Seq<u8> {
    seq![44u8, 32u8, 69u8, 84u8, 32u8, 65u8, 76u8, 46u8]
}

/// The bytes of [`et_al_plain`].
pub fn et_al_plain_v() -> (r: Vec<u8>)
    ensures
        r@ == et_al_plain(),
{
    let mut v: Vec<u8> = Vec::new();
    v.push(44);
    v.push(32);
    v.push(69);
    v.push(84);
    v.push(32);
    v.push(65);
    v.push(76);
    v.push(46);
    proof {
        assert(v@ =~= et_al_plain());
    }
    v
}

/// The Markdown et-al suffix of a long author list.
pub open spec fn et_al_md() -> Seq<u8> {
    seq![44u8, 32u8, 95u8, 69u8, 84u8, 32u8, 65u8, 76u8, 46u8, 95u8]
}

/// The bytes of [`et_al_md`].
pub fn et_al_md_v() -> (r: Vec<u8>)
    ensures
        r@ == et_al_md(),
{
    let mut v: Vec<u8> = Vec::new();
    v.push(44);
    v.push(32);
    v.push(95);
    v.push(69);
    v.push(84);
    v.push(32);
    v.push(65);
    v.push(76);
    v.push(46);
    v.push(95);
    proof {
        assert(v@ =~= et_al_md());
    }
    v
}

/// The truncation marker appended to a shortened description.
pub open spec fn ellipsis() -> Seq<u8> {
    seq![46u8, 46u8, 46u8]
}

/// The bytes of [`ellipsis`].
pub fn ellipsis_v() -> (r: Vec<u8>)
    ensures
        r@ == ellipsis(),
{
    let mut v: Vec<u8> = Vec::new();
    v.push(46);
    v.push(46);
    v.push(46);
    proof {
        assert(v@ =~= ellipsis());
    }
    v
}

/// The separator between keywords in the `keywords` field.
pub open spec fn dot_pat() -> Seq<u8> {
    seq![46u8]
}

/// The bytes of [`dot_pat`].
pub fn dot_pat_v() -> (r: Vec<u8>)
    ensures
        r@ == dot_pat(),
{
    let mut v: Vec<u8> = Vec::new();
    v.push(46);
    proof {
        assert(v@ =~= dot_pat());
    }
    v
}

/// The line opening the front-matter block.
pub open spec fn open_fence() -> Seq<u8> {
    seq![45u8, 45u8, 45u8, 10u8]
}

/// The bytes of [`open_fence`].
pub fn open_fence_v() -> (r: Vec<u8>)
    ensures
        r@ == open_fence(),
{
    let mut v: Vec<u8> = Vec::new();
    v.push(45);
    v.push(45);
    v.push(45);
    v.push(10);
    proof {
        assert(v@ =~= open_fence());
    }
    v
}

/// The line closing the front-matter block, plus the blank line before the body.
pub open spec fn close_fence() -> Seq<u8> {
    seq![45u8, 45u8, 45u8, 10u8, 10u8]
}

/// The bytes of [`close_fence`].
pub fn close_fence_v() -> (r: Vec<u8>)
    ensures
        r@ == close_fence(),
{
    let mut v: Vec<u8> = Vec::new();
    v.push(45);
    v.push(45);
    v.push(45);
    v.push(10);
    v.push(10);
    proof {
        assert(v@ =~= close_fence());
    }
    v
}

/// The start of the rendered `title` line.
pub open spec fn title_label() -> Seq<u8> {
    seq![116u8, 105u8, 116u8, 108u8, 101u8, 58u8, 32u8, 34u8]
}

/// The bytes of [`title_label`].
pub fn title_label_v() -> (r: Vec<u8>)
    ensures
        r@ == title_label(),
{
    let mut v: Vec<u8> = Vec::new();
    v.push(116);
    v.push(105);
    v.push(116);
    v.push(108);
    v.push(101);
    v.push(58);
    v.push(32);
    v.push(34);
    proof {
        assert(v@ =~= title_label());
    }
    v
}

/// The closing quote of a quoted scalar line.
pub open spec fn quote_nl() -> Seq<u8> {
    seq![34u8, 10u8]
}

/// The bytes of [`quote_nl`].
pub fn quote_nl_v() -> (r: Vec<u8>)
    ensures
        r@ == quote_nl(),
{
    let mut v: Vec<u8> = Vec::new();
    v.push(34);
    v.push(10);
    proof {
        assert(v@ =~= quote_nl());
    }
    v
}

/// The start of the rendered `description` line.
pub open spec fn desc_label() -> Seq<u8> {
    seq![100u8, 101u8, 115u8, 99u8, 114u8, 105u8, 112u8, 116u8, 105u8, 111u8, 110u8, 58u8, 32u8, 34u8]
}

/// The bytes of [`desc_label`].
pub fn desc_label_v() -> (r: Vec<u8>)
    ensures
        r@ == desc_label(),
{
    let mut v: Vec<u8> = Vec::new();
    v.push(100);
    v.push(101);
    v.push(115);
    v.push(99);
    v.push(114);
    v.push(105);
    v.push(112);
    v.push(116);
    v.push(105);
    v.push(111);
    v.push(110);
    v.push(58);
    v.push(32);
    v.push(34);
    proof {
        assert(v@ =~= desc_label());
    }
    v
}

/// The start of the rendered `date` line.
pub open spec fn date_label() -> Seq<u8> {
    seq![100u8, 97u8, 116u8, 101u8, 58u8, 32u8]
}

/// The bytes of [`date_label`].
pub fn date_label_v() -> (r: Vec<u8>)
    ensures
        r@ == date_label(),
{
    let mut v: Vec<u8> = Vec::new();
    v.push(100);
    v.push(97);
    v.push(116);
    v.push(101);
    v.push(58);
    v.push(32);
    proof {
        assert(v@ =~= date_label());
    }
    v
}

/// A single line feed.
pub open spec fn nl() -> Seq<u8> {
    seq![10u8]
}

/// The bytes of [`nl`].
pub fn nl_v() -> (r: Vec<u8>)
    ensures
        r@ == nl(),
{
    let mut v: Vec<u8> = Vec::new();
    v.push(10);
    proof {
        assert(v@ =~= nl());
    }
    v
}

/// The blank line after the rendered abstract body.
pub open spec fn nl2() -> Seq<u8> {
    seq![10u8, 10u8]
}

/// The bytes of [`nl2`].
pub fn nl2_v() -> (r: Vec<u8>)
    ensures
        r@ == nl2(),
{
    let mut v: Vec<u8> = Vec::new();
    v.push(10);
    v.push(10);
    proof {
        assert(v@ =~= nl2());
    }
    v
}

/// The start of the rendered author list.
pub open spec fn authors_label() -> Seq<u8> {
    seq![97u8, 117u8, 116u8, 104u8, 111u8, 114u8, 115u8, 58u8]
}

/// The bytes of [`authors_label`].
pub fn authors_label_v() -> (r: Vec<u8>)
    ensures
        r@ == authors_label(),
{
    let mut v: Vec<u8> = Vec::new();
    v.push(97);
    v.push(117);
    v.push(116);
    v.push(104);
    v.push(111);
    v.push(114);
    v.push(115);
    v.push(58);
    proof {
        assert(v@ =~= authors_label());
    }
    v
}

/// The start of one rendered author item.
pub open spec fn given_item() -> Seq<u8> {
    seq![10u8, 45u8, 32u8, 103u8, 105u8, 118u8, 101u8, 110u8, 58u8, 32u8]
}

/// The bytes of [`given_item`].
pub fn given_item_v() -> (r: Vec<u8>)
    ensures
        r@ == given_item(),
{
    let mut v: Vec<u8> = Vec::new();
    v.push(10);
    v.push(45);
    v.push(32);
    v.push(103);
    v.push(105);
    v.push(118);
    v.push(101);
    v.push(110);
    v.push(58);
    v.push(32);
    proof {
        assert(v@ =~= given_item());
    }
    v
}

/// The family line of one rendered author item.
pub open spec fn family_item() -> Seq<u8> {
    seq![10u8, 32u8, 32u8, 102u8, 97u8, 109u8, 105u8, 108u8, 121u8, 58u8, 32u8]
}

/// The bytes of [`family_item`].
pub fn family_item_v() -> (r: Vec<u8>)
    ensures
        r@ == family_item(),
{
    let mut v: Vec<u8> = Vec::new();
    v.push(10);
    v.push(32);
    v.push(32);
    v.push(102);
    v.push(97);
    v.push(109);
    v.push(105);
    v.push(108);
    v.push(121);
    v.push(58);
    v.push(32);
    proof {
        assert(v@ =~= family_item());
    }
    v
}

/// The start of the rendered tag list.
pub open spec fn tags_label() -> Seq<u8> {
    seq![116u8, 97u8, 103u8, 115u8, 58u8]
}

/// The bytes of [`tags_label`].
pub fn tags_label_v() -> (r: Vec<u8>)
    ensures
        r@ == tags_label(),
{
    let mut v: Vec<u8> = Vec::new();
    v.push(116);
    v.push(97);
    v.push(103);
    v.push(115);
    v.push(58);
    proof {
        assert(v@ =~= tags_label());
    }
    v
}

/// The start of one rendered tag item.
pub open spec fn dash_item() -> Seq<u8> {
    seq![10u8, 45u8, 32u8]
}

/// The bytes of [`dash_item`].
pub fn dash_item_v() -> (r: Vec<u8>)
    ensures
        r@ == dash_item(),
{
    let mut v: Vec<u8> = Vec::new();
    v.push(10);
    v.push(45);
    v.push(32);
    proof {
        assert(v@ =~= dash_item());
    }
    v
}

/// The start of the rendered page range.
pub open spec fn pages_label() -> Seq<u8> {
    seq![112u8, 97u8, 103u8, 101u8, 115u8, 58u8, 32u8, 91u8]
}

/// The bytes of [`pages_label`].
pub fn pages_label_v() -> (r: Vec<u8>)
    ensures
        r@ == pages_label(),
{
    let mut v: Vec<u8> = Vec::new();
    v.push(112);
    v.push(97);
    v.push(103);
    v.push(101);
    v.push(115);
    v.push(58);
    v.push(32);
    v.push(91);
    proof {
        assert(v@ =~= pages_label());
    }
    v
}

/// The end of a rendered array line.
pub open spec fn bracket_nl() -> Seq<u8> {
    seq![93u8, 10u8]
}

/// The bytes of [`bracket_nl`].
pub fn bracket_nl_v() -> (r: Vec<u8>)
    ensures
        r@ == bracket_nl(),
{
    let mut v: Vec<u8> = Vec::new();
    v.push(93);
    v.push(10);
    proof {
        assert(v@ =~= bracket_nl());
    }
    v
}

/// The start of the rendered `section` line.
pub open spec fn section_label() -> Seq<u8> {
    seq![115u8, 101u8, 99u8, 116u8, 105u8, 111u8, 110u8, 58u8, 32u8, 34u8]
}

/// The bytes of [`section_label`].
pub fn section_label_v() -> (r: Vec<u8>)
    ensures
        r@ == section_label(),
{
    let mut v: Vec<u8> = Vec::new();
    v.push(115);
    v.push(101);
    v.push(99);
    v.push(116);
    v.push(105);
    v.push(111);
    v.push(110);
    v.push(58);
    v.push(32);
    v.push(34);
    proof {
        assert(v@ =~= section_label());
    }
    v
}

/// The start of the rendered `series` line.
pub open spec fn series_label() -> Seq<u8> {
    seq![115u8, 101u8, 114u8, 105u8, 101u8, 115u8, 58u8, 32u8, 91u8, 110u8]
}

/// The bytes of [`series_label`].
pub fn series_label_v() -> (r: Vec<u8>)
    ensures
        r@ == series_label(),
{
    let mut v: Vec<u8> = Vec::new();
    v.push(115);
    v.push(101);
    v.push(114);
    v.push(105);
    v.push(101);
    v.push(115);
    v.push(58);
    v.push(32);
    v.push(91);
    v.push(110);
    proof {
        assert(v@ =~= series_label());
    }
    v
}

/// The start of the rendered `number` line.
pub open spec fn number_label() -> Seq<u8> {
    seq![110u8, 117u8, 109u8, 98u8, 101u8, 114u8, 58u8, 32u8]
}

/// The bytes of [`number_label`].
pub fn number_label_v() -> (r: Vec<u8>)
    ensures
        r@ == number_label(),
{
    let mut v: Vec<u8> = Vec::new();
    v.push(110);
    v.push(117);
    v.push(109);
    v.push(98);
    v.push(101);
    v.push(114);
    v.push(58);
    v.push(32);
    proof {
        assert(v@ =~= number_label());
    }
    v
}

/// The start of the rendered `semester` line.
pub open spec fn semester_label() -> Seq<u8> {
    seq![115u8, 101u8, 109u8, 101u8, 115u8, 116u8, 101u8, 114u8, 58u8, 32u8]
}

/// The bytes of [`semester_label`].
pub fn semester_label_v() -> (r: Vec<u8>)
    ensures
        r@ == semester_label(),
{
    let mut v: Vec<u8> = Vec::new();
    v.push(115);
    v.push(101);
    v.push(109);
    v.push(101);
    v.push(115);
    v.push(116);
    v.push(101);
    v.push(114);
    v.push(58);
    v.push(32);
    proof {
        assert(v@ =~= semester_label());
    }
    v
}

/// The start of the rendered `year` line.
pub open spec fn year_label() -> Seq<u8> {
    seq![121u8, 101u8, 97u8, 114u8, 58u8, 32u8]
}

/// The bytes of [`year_label`].
pub fn year_label_v() -> (r: Vec<u8>)
    ensures
        r@ == year_label(),
{
    let mut v: Vec<u8> = Vec::new();
    v.push(121);
    v.push(101);
    v.push(97);
    v.push(114);
    v.push(58);
    v.push(32);
    proof {
        assert(v@ =~= year_label());
    }
    v
}

/// The label before the Markdown abstract.
pub open spec fn resumo_label() -> Seq<u8> {
    seq![42u8, 42u8, 82u8, 101u8, 115u8, 117u8, 109u8, 111u8, 58u8, 42u8, 42u8, 32u8]
}

/// The bytes of [`resumo_label`].
pub fn resumo_label_v() -> (r: Vec<u8>)
    ensures
        r@ == resumo_label(),
{
    let mut v: Vec<u8> = Vec::new();
    v.push(42);
    v.push(42);
    v.push(82);
    v.push(101);
    v.push(115);
    v.push(117);
    v.push(109);
    v.push(111);
    v.push(58);
    v.push(42);
    v.push(42);
    v.push(32);
    proof {
        assert(v@ =~= resumo_label());
    }
    v
}

/// The label before the raw keyword list.
pub open spec fn palavras_label() -> Seq<u8> {
    seq![42u8, 42u8, 80u8, 97u8, 108u8, 97u8, 118u8, 114u8, 97u8, 115u8, 45u8, 99u8, 104u8, 97u8, 118u8, 101u8, 58u8, 42u8, 42u8, 32u8]
}

/// The bytes of [`palavras_label`].
pub fn palavras_label_v() -> (r: Vec<u8>)
    ensures
        r@ == palavras_label(),
{
    let mut v: Vec<u8> = Vec::new();
    v.push(42);
    v.push(42);
    v.push(80);
    v.push(97);
    v.push(108);
    v.push(97);
    v.push(118);
    v.push(114);
    v.push(97);
    v.push(115);
    v.push(45);
    v.push(99);
    v.push(104);
    v.push(97);
    v.push(118);
    v.push(101);
    v.push(58);
    v.push(42);
    v.push(42);
    v.push(32);
    proof {
        assert(v@ =~= palavras_label());
    }
    v
}

} // verus!
