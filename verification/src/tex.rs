//! Renders a board as a LaTeX document, one titled box per square.
//!
//! Writing the document to disk is the caller's business; this module only
//! builds the text.

use crate::preferences::Language;
use crate::preferences::Preferences;
use crate::text::dec_str;
use crate::text::push_char;
use crate::text::spec_lines;
use crate::text::split_lines;
use crate::text::usize_to_string;
use crate::world::World;
use vstd::prelude::*;

verus! {

/// The description lines of one square, each closed with a LaTeX line break.
pub open spec fn spec_tex_lines(lines: Seq<Seq<char>>) -> Seq<char>
    decreases lines.len(),
{
    if lines.len() == 0 {
        Seq::empty()
    } else {
        spec_tex_lines(lines.drop_last()) + lines.last() + ("\\\\")@ + seq!['\n']
    }
}

/// The titled box of one square: its index as the title, then its
/// description line by line.
pub open spec fn spec_tex_area_block(idx: int, description: Seq<char>) -> Seq<char> {
    ("\\begin{areabox}{")@ + dec_str(idx) + ("}")@ + seq!['\n'] + spec_tex_lines(
        spec_lines(description),
    ) + ("\\end{areabox}")@ + seq!['\n'] + seq!['\n']
}

/// The boxes of a board prefix, in board order.
pub open spec fn spec_tex_blocks(w: World, language: Language, upto: int) -> Seq<char>
    decreases upto,
{
    if upto <= 0 {
        Seq::empty()
    } else {
        spec_tex_blocks(w, language, upto - 1) + spec_tex_area_block(
            upto - 1,
            w.area_list@[upto - 1].spec_description(language),
        )
    }
}

/// The document preamble up to and including the title matter.
pub open spec fn spec_tex_header(title: Seq<char>) -> Seq<char> {
    ("\\documentclass[11pt,dvipdfmx]{jsarticle}")@ + seq!['\n'] + seq!['\n'] + (
    "\\usepackage{tcolorbox}")@ + seq!['\n'] + (
    "\\newtcolorbox{areabox}[2][]{colbacktitle=black,coltitle=white,title={#2}}")@ + seq!['\n']
        + seq!['\n'] + ("\\begin{document}")@ + seq!['\n'] + ("\\title{")@ + title + ("}")@
        + seq!['\n'] + ("\\author{}")@ + seq!['\n'] + ("\\date{}")@ + seq!['\n'] + ("\\maketitle")@
        + seq!['\n'] + seq!['\n']
}

/// The whole document.
pub open spec fn spec_tex_document(w: World, language: Language) -> Seq<char> {
    spec_tex_header(w.title@) + spec_tex_blocks(w, language, w.area_list@.len() as int) + (
    "\\end{document}")@ + seq!['\n']
}

/// Builds the LaTeX document for a board.
pub fn tex_document(world: &World, preferences: &Preferences) -> (r: String)
    ensures
        r@ == spec_tex_document(*world, preferences.language),
{
    let ghost language = preferences.language;
    let mut s = String::from_str("\\documentclass[11pt,dvipdfmx]{jsarticle}");
    push_char(&mut s, '\n');
    push_char(&mut s, '\n');
    s.append("\\usepackage{tcolorbox}");
    push_char(&mut s, '\n');
    s.append("\\newtcolorbox{areabox}[2][]{colbacktitle=black,coltitle=white,title={#2}}");
    push_char(&mut s, '\n');
    push_char(&mut s, '\n');
    s.append("\\begin{document}");
    push_char(&mut s, '\n');
    s.append("\\title{");
    s.append(world.title.as_str());
    s.append("}");
    push_char(&mut s, '\n');
    s.append("\\author{}");
    push_char(&mut s, '\n');
    s.append("\\date{}");
    push_char(&mut s, '\n');
    s.append("\\maketitle");
    push_char(&mut s, '\n');
    push_char(&mut s, '\n');
    proof {
        assert(s@ == spec_tex_header(world.title@));
    }
    let ghost header = s@;
    let n = world.area_list.len();
    let mut i: usize = 0;
    while i < n
        invariant
            n == world.area_list@.len(),
            i <= n,
            language == preferences.language,
            header == spec_tex_header(world.title@),
            s@ == header + spec_tex_blocks(*world, language, i as int),
        decreases n - i,
    {
        s.append("\\begin{areabox}{");
        let idx = usize_to_string(i);
        s.append(idx.as_str());
        s.append("}");
        push_char(&mut s, '\n');
        let description = world.area_list[i].area_description(preferences);
        let lines = split_lines(description.as_str());
        let ghost linesv = spec_lines(description@);
        let m = lines.len();
        let ghost before = s@;
        let mut k: usize = 0;
        proof {
            assert(linesv.take(0) =~= Seq::<Seq<char>>::empty());
        }
        while k < m
            invariant
                m == lines@.len(),
                k <= m,
                linesv == crate::text::strs_view(lines@),
                s@ == before + spec_tex_lines(linesv.take(k as int)),
            decreases m - k,
        {
            proof {
                assert(linesv[k as int] == lines@[k as int]@);
                assert(linesv.take(k + 1).drop_last() =~= linesv.take(k as int));
                assert(linesv.take(k + 1).last() == linesv[k as int]);
            }
            s.append(lines[k].as_str());
            s.append("\\\\");
            push_char(&mut s, '\n');
            k = k + 1;
        }
        proof {
            assert(linesv.take(m as int) =~= linesv);
        }
        s.append("\\end{areabox}");
        push_char(&mut s, '\n');
        push_char(&mut s, '\n');
        i = i + 1;
    }
    s.append("\\end{document}");
    push_char(&mut s, '\n');
    s
}

} // verus!
