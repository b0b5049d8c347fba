//! Knowledge handling: pulling fenced code blocks out of retrieved text,
//! rendering them into a knowledge file, and splicing one learned function
//! into a validated candidate. All of it is plain text work with exact
//! contracts; reading and writing the files is the caller's part.
use vstd::prelude::*;
use crate::kern::EnhancedEvoliKern;
use crate::text::copy_range;
use crate::text::dec_digits;
use crate::text::find_pattern_from;
use crate::text::first_match_from;
use crate::text::last_char_at;
use crate::text::lemma_first_match_bounds;
use crate::text::rfind_char;
use crate::text::str_to_chars;
use crate::text::trim_chars;
use crate::text::trim_spec;
use crate::text::u64_to_chars;

verus! {

/// The opening fence a code block starts with.
pub open spec fn fence_spec() -> Seq<char> {
    "```rust"@
}

/// The closing fence.
pub open spec fn ticks_spec() -> Seq<char> {
    "```"@
}

/// The segments of `h` between non-overlapping occurrences of `pat`, found
/// left to right; the text before the first occurrence is a segment too.
pub open spec fn split_segments(h: Seq<char>, pat: Seq<char>) -> Seq<Seq<char>>
    decreases h.len(),
    via split_segments_dec
{
    if pat.len() == 0 {
        seq![h]
    } else {
        match first_match_from(h, pat, 0) {
            None => seq![h],
            Some(i) => seq![h.subrange(0, i)] + split_segments(
                h.subrange(i + pat.len() as int, h.len() as int),
                pat,
            ),
        }
    }
}

#[via_fn]
proof fn split_segments_dec(h: Seq<char>, pat: Seq<char>) {
    if pat.len() > 0 {
        lemma_first_match_bounds(h, pat, 0);
    }
}

/// What one segment contributes: the text up to its first closing fence,
/// trimmed, if anything is left of it.
pub open spec fn segment_block(seg: Seq<char>) -> Option<Seq<char>> {
    match first_match_from(seg, ticks_spec(), 0) {
        None => None,
        Some(e) => {
            let t = trim_spec(seg.subrange(0, e));
            if t.len() > 0 {
                Some(t)
            } else {
                None
            }
        },
    }
}

/// The blocks the segments contribute, in order.
pub open spec fn collect_blocks(segs: Seq<Seq<char>>) -> Seq<Seq<char>>
    decreases segs.len(),
{
    if segs.len() == 0 {
        Seq::empty()
    } else {
        let rest = collect_blocks(segs.drop_first());
        match segment_block(segs[0]) {
            Some(b) => seq![b] + rest,
            None => rest,
        }
    }
}

/// Every code block extracted from retrieved content: nothing unless an
/// opening fence occurs at all, else each fenced, non-empty block in order.
pub open spec fn extract_blocks(content: Seq<char>) -> Seq<Seq<char>> {
    if first_match_from(content, fence_spec(), 0) is Some {
        collect_blocks(split_segments(content, fence_spec()))
    } else {
        Seq::empty()
    }
}

fn process_segment(seg: &Vec<char>, ticks: &Vec<char>) -> (r: Option<Vec<char>>)
    requires
        ticks@ == ticks_spec(),
    ensures
        match r {
            Some(b) => segment_block(seg@) == Some(b@),
            None => segment_block(seg@) is None,
        },
{
    proof {
        reveal_strlit("```");
    }
    match find_pattern_from(seg, ticks, 0) {
        None => None,
        Some(e) => {
            proof {
                lemma_first_match_bounds(seg@, ticks@, 0);
            }
            let prefix = copy_range(seg, 0, e);
            let t = trim_chars(&prefix);
            if t.len() > 0 {
                Some(t)
            } else {
                None
            }
        },
    }
}

fn collect_rec(h: &Vec<char>, fence: &Vec<char>, ticks: &Vec<char>) -> (r: Vec<Vec<char>>)
    requires
        fence@ == fence_spec(),
        ticks@ == ticks_spec(),
    ensures
        r.deep_view() == collect_blocks(split_segments(h@, fence@)),
    decreases h@.len(),
{
    proof {
        reveal_strlit("```rust");
    }
    let mut r: Vec<Vec<char>> = Vec::new();
    match find_pattern_from(h, fence, 0) {
        None => {
            let ghost segs = split_segments(h@, fence@);
            assert(segs =~= seq![h@]);
            assert(segs.drop_first() =~= Seq::<Seq<char>>::empty());
            assert(collect_blocks(Seq::<Seq<char>>::empty()) =~= Seq::<Seq<char>>::empty());
            match process_segment(h, ticks) {
                Some(b) => {
                    let ghost bv = b@;
                    r.push(b);
                    assert(r.deep_view() =~~= seq![bv] + Seq::<Seq<char>>::empty());
                    assert(collect_blocks(segs) =~~= seq![bv] + Seq::<Seq<char>>::empty());
                },
                None => {
                    assert(r.deep_view() =~~= Seq::<Seq<char>>::empty());
                },
            }
            r
        },
        Some(i) => {
            proof {
                lemma_first_match_bounds(h@, fence@, 0);
            }
            let hn: usize = h.len();
            assert(i + fence@.len() <= hn);
            let seg = copy_range(h, 0, i);
            let rest = copy_range(h, i + fence.len(), hn);
            let ghost segs = split_segments(h@, fence@);
            assert(segs == seq![h@.subrange(0, i as int)] + split_segments(rest@, fence@));
            assert(segs[0] == seg@);
            assert(segs.drop_first() =~= split_segments(rest@, fence@));
            let mut tail = collect_rec(&rest, fence, ticks);
            match process_segment(&seg, ticks) {
                Some(b) => {
                    let ghost bv = b@;
                    r.push(b);
                    r.append(&mut tail);
                    assert(r.deep_view() =~~= seq![bv] + collect_blocks(
                        split_segments(rest@, fence@),
                    ));
                    assert(collect_blocks(segs) =~~= seq![bv] + collect_blocks(
                        split_segments(rest@, fence@),
                    ));
                },
                None => {
                    r.append(&mut tail);
                    assert(r.deep_view() =~~= collect_blocks(split_segments(rest@, fence@)));
                    assert(collect_blocks(segs) =~~= collect_blocks(split_segments(rest@, fence@)));
                },
            }
            r
        },
    }
}

impl EnhancedEvoliKern {
    /// Extracts every fenced code block from retrieved content: the blocks
    /// between an opening and the next closing fence, trimmed, the empty
    /// ones dropped — and none at all where no opening fence occurs.
    pub fn extract_knowledge_from_content(&self, content: &Vec<char>) -> (blocks: Vec<Vec<char>>)
        ensures
            blocks.deep_view() == extract_blocks(content@),
    {
        proof {
            reveal_strlit("```rust");
        }
        let fence = str_to_chars("```rust");
        let ticks = str_to_chars("```");
        match find_pattern_from(content, &fence, 0) {
            None => {
                let r: Vec<Vec<char>> = Vec::new();
                assert(r.deep_view() =~~= extract_blocks(content@));
                r
            },
            Some(_first) => collect_rec(content, &fence, &ticks),
        }
    }
}

/// The comment line above each rendered block, numbered from one.
pub open spec fn block_header(idx: int) -> Seq<char> {
    "// Extrahiertes Code-Beispiel "@ + dec_digits(idx) + "\n"@
}

/// The text of a knowledge file: each block under its numbered header,
/// a blank line after each.
pub open spec fn rendered_blocks(blocks: Seq<Seq<char>>, idx: int) -> Seq<char>
    decreases blocks.len(),
{
    if blocks.len() == 0 {
        Seq::empty()
    } else {
        block_header(idx) + blocks[0] + "\n\n"@ + rendered_blocks(blocks.drop_first(), idx + 1)
    }
}

/// Renders extracted blocks into the text of one knowledge file.
pub fn render_knowledge_file(blocks: &Vec<Vec<char>>) -> (r: Vec<char>)
    ensures
        r@ == rendered_blocks(blocks.deep_view(), 1),
{
    let ghost views = blocks.deep_view();
    let mut r: Vec<char> = Vec::new();
    let mut i: usize = 0;
    assert(views.skip(0) =~= views);
    while i < blocks.len()
        invariant
            i <= blocks@.len(),
            views == blocks.deep_view(),
            views.len() == blocks@.len(),
            r@ + rendered_blocks(views.skip(i as int), i + 1) == rendered_blocks(views, 1),
        decreases blocks@.len() - i,
    {
        let ghost before = r@;
        let mut header = str_to_chars("// Extrahiertes Code-Beispiel ");
        let mut digits = u64_to_chars((i as u64) + 1);
        header.append(&mut digits);
        let mut nl = str_to_chars("\n");
        header.append(&mut nl);
        assert(header@ =~= block_header(i + 1));
        r.append(&mut header);
        let mut block = copy_range(&blocks[i], 0, blocks[i].len());
        assert(block@ =~= views.skip(i as int)[0]);
        r.append(&mut block);
        let mut sep = str_to_chars("\n\n");
        r.append(&mut sep);
        proof {
            assert(views.skip(i as int).drop_first() =~= views.skip(i + 1));
            assert(r@ + rendered_blocks(views.skip(i + 1), i + 2) =~= before + rendered_blocks(
                views.skip(i as int),
                i + 1,
            ));
        }
        i = i + 1;
    }
    assert(views.skip(blocks@.len() as int) =~= Seq::<Seq<char>>::empty());
    r
}

/// The start marker of a liftable function.
pub open spec fn fn_marker_spec() -> Seq<char> {
    "fn "@
}

/// The end marker: a closing brace alone on a line.
pub open spec fn close_marker_spec() -> Seq<char> {
    "\n}\n"@
}

/// The first function-like substring of a knowledge text: from the first
/// start marker through the next end marker.
pub open spec fn splice_function(k: Seq<char>) -> Option<Seq<char>> {
    match first_match_from(k, fn_marker_spec(), 0) {
        None => None,
        Some(fs) => match first_match_from(k, close_marker_spec(), fs) {
            None => None,
            Some(fe) => Some(k.subrange(fs, fe + close_marker_spec().len() as int)),
        },
    }
}

/// The comment above a spliced function.
pub open spec fn integration_comment() -> Seq<char> {
    "\n// Von Internet gelernt\n"@
}

/// A candidate with one learned function spliced in before its final
/// closing brace (at its end where it has none) — or unchanged where no
/// knowledge text was chosen or none of it looks like a function. The
/// splice is textual; its result is not validated again.
pub open spec fn integrate_spec(code: Seq<char>, knowledge: Option<Seq<char>>) -> Seq<char> {
    match knowledge {
        None => code,
        Some(k) => match splice_function(k) {
            None => code,
            Some(f) => {
                let ip = match last_char_at(code, '}') {
                    Some(i) => i,
                    None => code.len() as int,
                };
                code.subrange(0, ip) + integration_comment() + f + "\n"@ + code.subrange(
                    ip,
                    code.len() as int,
                )
            },
        },
    }
}

/// The view of an optional knowledge text.
pub open spec fn knowledge_view(knowledge: Option<&Vec<char>>) -> Option<Seq<char>> {
    match knowledge {
        Some(k) => Some(k@),
        None => None,
    }
}

impl EnhancedEvoliKern {
    /// Splices the first function found in the chosen knowledge text into a
    /// validated candidate, just before the candidate's final closing
    /// brace; with no knowledge text, or none holding a function, the
    /// candidate comes back unchanged.
    pub fn integrate_knowledge_into_code(&self, code: &Vec<char>, knowledge: Option<&Vec<char>>) -> (r:
        Vec<char>)
        ensures
            r@ == integrate_spec(code@, knowledge_view(knowledge)),
    {
        let unchanged = match knowledge {
            None => true,
            Some(_) => false,
        };
        if unchanged {
            let r = copy_range(code, 0, code.len());
            assert(r@ =~= code@);
            return r;
        }
        let k = match knowledge {
            Some(k) => k,
            None => code,  // unreachable: the None case returned above
        };
        proof {
            reveal_strlit("fn ");
            reveal_strlit("\n}\n");
        }
        let marker = str_to_chars("fn ");
        let closer = str_to_chars("\n}\n");
        match find_pattern_from(k, &marker, 0) {
            None => {
                let r = copy_range(code, 0, code.len());
                assert(r@ =~= code@);
                r
            },
            Some(fs) => {
                match find_pattern_from(k, &closer, fs) {
                    None => {
                        let r = copy_range(code, 0, code.len());
                        assert(r@ =~= code@);
                        r
                    },
                    Some(fe) => {
                        proof {
                            lemma_first_match_bounds(k@, closer@, fs as int);
                        }
                        let kn: usize = k.len();
                        assert(fe + closer@.len() <= kn);
                        let mut func = copy_range(k, fs, fe + closer.len());
                        let ip: usize = match rfind_char(code, '}') {
                            Some(i) => i,
                            None => code.len(),
                        };
                        let mut r = copy_range(code, 0, ip);
                        let mut comment = str_to_chars("\n// Von Internet gelernt\n");
                        r.append(&mut comment);
                        r.append(&mut func);
                        let mut nl = str_to_chars("\n");
                        r.append(&mut nl);
                        let mut tail = copy_range(code, ip, code.len());
                        r.append(&mut tail);
                        assert(r@ =~= integrate_spec(code@, knowledge_view(knowledge)));
                        r
                    },
                }
            },
        }
    }
}

} // verus!
