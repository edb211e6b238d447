//! Locating a generation block inside a document and splitting the document
//! into the five spans around it: leading text, start marker, payload, end
//! marker, trailing text.
//!
//! The start pattern only anchors the marker's name; the true end of the
//! start marker is resolved by brace counting, so parameter values that look
//! like further markers are skipped instead of closing the marker early.
//! When no end marker exists the block is self-closing: it has no payload and
//! no end-marker span, and its regenerated content is delivered out of band.

use vstd::prelude::*;

use crate::template::next_depth;
use crate::template::parses;
use crate::template::subvec;
use crate::template::template_params;
use crate::template::template_title;
use crate::template::Template;
use crate::template::CLOSE_BRACE;
use crate::template::OPEN_BRACE;

verus! {

/// Byte value of the newline that pads a regenerated payload.
pub const NEWLINE: u8 = 10;

/// Scans `s` from index `i` with `open` unclosed braces; returns the offset
/// just past the byte at which the count reaches zero, or nothing when `s` is
/// exhausted first.
pub open spec fn brace_end_from(s: Seq<u8>, i: int, open: nat) -> Option<int>
    decreases s.len() - i,
{
    if open == 0 {
        Some(i)
    } else if i < 0 || i >= s.len() {
        None
    } else {
        brace_end_from(s, i + 1, next_depth(open, s[i]))
    }
}

/// The offset just past the close of the start marker's own parameter list,
/// scanning `s` with two braces already open (the caller consumed the opening
/// delimiter).
pub open spec fn get_template_end_spec(s: Seq<u8>) -> Option<int> {
    brace_end_from(s, 0, 2)
}

/// The first match of `pattern` in `hay` at or after `from`, as byte offsets;
/// what regex::bytes::Regex::find_at returns for the pattern compiled
/// case-insensitive, multi-line, with `.` matching newline.
pub uninterp spec fn regex_find(pattern: Seq<char>, hay: Seq<u8>, from: int) -> Option<(int, int)>;

/// Relies on regex::bytes::RegexBuilder::build and regex::bytes::Regex::find_at:
/// the leftmost match at or after `from` of the pattern compiled with the
/// case-insensitive, multi-line and dot-matches-new-line flags, or nothing
/// when the pattern does not compile or does not match. A match is a byte
/// range of the haystack starting at or after `from`.
#[verifier::external_body]
fn regex_find_at(pattern: &str, hay: &Vec<u8>, from: usize) -> (r: Option<(usize, usize)>)
    requires
        from <= hay@.len(),
    ensures
        match r {
            Some(m) => regex_find(pattern@, hay@, from as int) == Some((m.0 as int, m.1 as int))
                && from <= m.0 && m.0 <= m.1 && m.1 <= hay@.len(),
            None => regex_find(pattern@, hay@, from as int) is None,
        },
{
    let re = match regex::bytes::RegexBuilder::new(pattern)
        .multi_line(true)
        .dot_matches_new_line(true)
        .case_insensitive(true)
        .build()
    {
        Ok(re) => re,
        Err(_) => return None,
    };
    re.find_at(hay.as_slice(), from).map(|m| (m.start(), m.end()))
}

/// The mathematical content of a located block.
pub ghost struct PageElementModel {
    /// Untouched document content before the block.
    pub before: Seq<u8>,
    /// The literal start-marker text, up to and including its own close.
    pub template_start: Seq<u8>,
    /// The raw content between the markers; empty for the self-closing form.
    pub inside: Seq<u8>,
    /// The literal end-marker text; empty for the self-closing form.
    pub template_end: Seq<u8>,
    /// Untouched document content after the block.
    pub after: Seq<u8>,
    /// The marker's declared name.
    pub title: Seq<u8>,
    /// The marker's parameters, duplicates resolved in favour of the last.
    pub params: Map<Seq<u8>, Seq<u8>>,
    /// True when the element is plain text with no block at all.
    pub is_just_text: bool,
    /// True when the block has only a start marker.
    pub self_closing: bool,
}

/// The five spans reassemble the document exactly.
pub open spec fn reconstructs(m: PageElementModel, doc: Seq<u8>) -> bool {
    m.before + m.template_start + m.inside + m.template_end + m.after == doc
}

/// What locating the first block in `doc` yields: nothing when the start
/// pattern does not match, when its match is shorter than the opening
/// delimiter, when an end match begins before the start match ends, when the
/// start marker's parameter list is unterminated, or when the marker carries
/// no name; otherwise the five spans and the parsed specification.
pub open spec fn locate_spec(doc: Seq<u8>, sp: Seq<char>, ep: Seq<char>) -> Option<
    PageElementModel,
> {
    match regex_find(sp, doc, 0) {
        None => None,
        Some((ss, se)) => {
            if se < ss + 2 {
                None
            } else {
                match regex_find(ep, doc, ss) {
                    Some((es, ee)) => {
                        if es < se {
                            None
                        } else {
                            match get_template_end_spec(doc.subrange(se, es)) {
                                None => None,
                                Some(p) => {
                                    let tse = se + p;
                                    let inner = doc.subrange(ss + 2, tse - 2);
                                    if !parses(inner) {
                                        None
                                    } else {
                                        Some(
                                            (PageElementModel {
                                                before: doc.subrange(0, ss),
                                                template_start: doc.subrange(ss, tse),
                                                inside: doc.subrange(tse, es),
                                                template_end: doc.subrange(es, ee),
                                                after: doc.subrange(ee, doc.len() as int),
                                                title: template_title(inner),
                                                params: template_params(inner),
                                                is_just_text: false,
                                                self_closing: false,
                                            }),
                                        )
                                    }
                                },
                            }
                        }
                    },
                    None => {
                        match get_template_end_spec(doc.subrange(se, doc.len() as int)) {
                            None => None,
                            Some(p) => {
                                let tse = se + p;
                                let inner = doc.subrange(ss + 2, tse - 2);
                                if !parses(inner) {
                                    None
                                } else {
                                    Some(
                                        (PageElementModel {
                                            before: doc.subrange(0, ss),
                                            template_start: doc.subrange(ss, tse),
                                            inside: Seq::empty(),
                                            template_end: Seq::empty(),
                                            after: doc.subrange(tse, doc.len() as int),
                                            title: template_title(inner),
                                            params: template_params(inner),
                                            is_just_text: false,
                                            self_closing: true,
                                        }),
                                    )
                                }
                            },
                        }
                    },
                }
            }
        },
    }
}

/// The text that reassembly produces: the leading text alone for plain text
/// and for a self-closing block (whose content is delivered out of band);
/// otherwise the payload, padded by one newline on each side, spliced between
/// the preserved markers.
pub open spec fn as_wikitext_spec(m: PageElementModel, new_inside: Seq<u8>) -> Seq<u8> {
    if m.is_just_text || m.self_closing {
        m.before
    } else {
        m.before + m.template_start + seq![NEWLINE] + new_inside + seq![NEWLINE] + m.template_end
            + m.after
    }
}

/// A document split around its first generation block.
#[derive(Debug, Clone)]
pub struct PageElement {
    before: Vec<u8>,
    template_start: Vec<u8>,
    inside: Vec<u8>,
    template_end: Vec<u8>,
    after: Vec<u8>,
    template: Template,
    is_just_text: bool,
    self_closing: bool,
}

impl View for PageElement {
    type V = PageElementModel;

    closed spec fn view(&self) -> PageElementModel {
        PageElementModel {
            before: self.before@,
            template_start: self.template_start@,
            inside: self.inside@,
            template_end: self.template_end@,
            after: self.after@,
            title: self.template.title_spec(),
            params: self.template.params_spec(),
            is_just_text: self.is_just_text,
            self_closing: self.self_closing,
        }
    }
}

impl PageElement {
    /// Locates the first generation block in `text`: the start pattern
    /// anchors the marker's name, brace counting resolves the marker's own
    /// close, and a missing end match makes the block self-closing.
    pub fn new_from_text(text: &Vec<u8>, start_pattern: &str, end_pattern: &str) -> (r: Option<
        PageElement,
    >)
        ensures
            match r {
                Some(pe) => locate_spec(text@, start_pattern@, end_pattern@) == Some(pe@)
                    && reconstructs(pe@, text@),
                None => locate_spec(text@, start_pattern@, end_pattern@) is None,
            },
    {
        let (ss, se) = match regex_find_at(start_pattern, text, 0) {
            Some(m) => m,
            None => {
                return None;
            },
        };
        if se - ss < 2 {
            return None;
        }
        match regex_find_at(end_pattern, text, ss) {
            Some((es, ee)) => {
                if es < se {
                    return None;
                }
                let window = subvec(text, se, es);
                let p = match Self::get_template_end(&window) {
                    Some(p) => p,
                    None => {
                        return None;
                    },
                };
                let tse = se + p;
                let inner = subvec(text, ss + 2, tse - 2);
                let template = match Template::new_from_params(&inner) {
                    Some(t) => t,
                    None => {
                        return None;
                    },
                };
                let pe = PageElement {
                    before: subvec(text, 0, ss),
                    template_start: subvec(text, ss, tse),
                    inside: subvec(text, tse, es),
                    template_end: subvec(text, es, ee),
                    after: subvec(text, ee, text.len()),
                    template,
                    is_just_text: false,
                    self_closing: false,
                };
                proof {
                    assert(reconstructs(pe@, text@)) by {
                        assert(pe@.before + pe@.template_start + pe@.inside + pe@.template_end
                            + pe@.after =~= text@);
                    }
                }
                Some(pe)
            },
            None => {
                let window = subvec(text, se, text.len());
                let p = match Self::get_template_end(&window) {
                    Some(p) => p,
                    None => {
                        return None;
                    },
                };
                let tse = se + p;
                let inner = subvec(text, ss + 2, tse - 2);
                let template = match Template::new_from_params(&inner) {
                    Some(t) => t,
                    None => {
                        return None;
                    },
                };
                let pe = PageElement {
                    before: subvec(text, 0, ss),
                    template_start: subvec(text, ss, tse),
                    inside: Vec::new(),
                    template_end: Vec::new(),
                    after: subvec(text, tse, text.len()),
                    template,
                    is_just_text: false,
                    self_closing: true,
                };
                proof {
                    assert(reconstructs(pe@, text@)) by {
                        assert(pe@.before + pe@.template_start + pe@.inside + pe@.template_end
                            + pe@.after =~= text@);
                    }
                }
                Some(pe)
            },
        }
    }

    /// Wraps plain text that contains no block: everything is leading text.
    pub fn new_just_text(text: &Vec<u8>) -> (r: PageElement)
        ensures
            r@ == (PageElementModel {
                before: text@,
                template_start: Seq::empty(),
                inside: Seq::empty(),
                template_end: Seq::empty(),
                after: Seq::empty(),
                title: Seq::empty(),
                params: Map::empty(),
                is_just_text: true,
                self_closing: false,
            }),
            reconstructs(r@, text@),
    {
        let r = PageElement {
            before: subvec(text, 0, text.len()),
            template_start: Vec::new(),
            inside: Vec::new(),
            template_end: Vec::new(),
            after: Vec::new(),
            template: Template::empty(),
            is_just_text: true,
            self_closing: false,
        };
        proof {
            assert(r@.before + r@.template_start + r@.inside + r@.template_end + r@.after
                =~= text@);
        }
        r
    }

    /// Hands the trailing text to the caller and empties it, so that the
    /// caller can carry it over to the next element.
    pub fn get_and_clean_after(&mut self) -> (r: Vec<u8>)
        ensures
            r@ == old(self)@.after,
            final(self)@ == (PageElementModel { after: Seq::empty(), ..old(self)@ }),
    {
        let ret = subvec(&self.after, 0, self.after.len());
        self.after = Vec::new();
        ret
    }

    /// The new payload for this element: empty for plain text, otherwise the
    /// externally rendered content unchanged.
    pub fn new_inside(&self, rendered: &Vec<u8>) -> (r: Vec<u8>)
        ensures
            r@ == (if self@.is_just_text {
                Seq::<u8>::empty()
            } else {
                rendered@
            }),
    {
        if self.is_just_text {
            Vec::new()
        } else {
            subvec(rendered, 0, rendered.len())
        }
    }

    /// Reassembles the document around the new payload, preserving both
    /// marker spans verbatim and padding the payload with one newline on
    /// each side.
    pub fn as_wikitext(&self, new_inside: &Vec<u8>) -> (r: Vec<u8>)
        ensures
            r@ == as_wikitext_spec(self@, new_inside@),
    {
        if self.is_just_text || self.self_closing {
            return subvec(&self.before, 0, self.before.len());
        }
        let mut r = subvec(&self.before, 0, self.before.len());
        extend_from(&mut r, &self.template_start);
        r.push(NEWLINE);
        extend_from(&mut r, new_inside);
        r.push(NEWLINE);
        extend_from(&mut r, &self.template_end);
        extend_from(&mut r, &self.after);
        proof {
            assert(r@ =~= as_wikitext_spec(self@, new_inside@));
        }
        r
    }

    /// Whether this element is plain text with no block.
    pub fn is_just_text(&self) -> (r: bool)
        ensures
            r == self@.is_just_text,
    {
        self.is_just_text
    }

    /// Whether the block has only a start marker.
    pub fn is_self_closing(&self) -> (r: bool)
        ensures
            r == self@.self_closing,
    {
        self.self_closing
    }

    /// The untouched document content before the block.
    pub fn before(&self) -> (r: &Vec<u8>)
        ensures
            r@ == self@.before,
    {
        &self.before
    }

    /// The literal start-marker text, preserved verbatim.
    pub fn template_start(&self) -> (r: &Vec<u8>)
        ensures
            r@ == self@.template_start,
    {
        &self.template_start
    }

    /// The raw content between the markers.
    pub fn inside(&self) -> (r: &Vec<u8>)
        ensures
            r@ == self@.inside,
    {
        &self.inside
    }

    /// The literal end-marker text, preserved verbatim.
    pub fn template_end(&self) -> (r: &Vec<u8>)
        ensures
            r@ == self@.template_end,
    {
        &self.template_end
    }

    /// The untouched document content after the block.
    pub fn after(&self) -> (r: &Vec<u8>)
        ensures
            r@ == self@.after,
    {
        &self.after
    }

    /// The parsed specification carried by the start marker.
    pub fn template(&self) -> (r: &Template)
        ensures
            r.title_spec() == self@.title,
            r.params_spec() == self@.params,
    {
        &self.template
    }

    /// Scans `text` with two braces already open and returns the offset just
    /// past the byte at which the count reaches zero; nothing when the
    /// parameter list is unterminated.
    pub fn get_template_end(text: &Vec<u8>) -> (r: Option<usize>)
        ensures
            match r {
                Some(p) => get_template_end_spec(text@) == Some(p as int) && 2 <= p <= text@.len(),
                None => get_template_end_spec(text@) is None,
            },
    {
        let mut pos: usize = 0;
        // The count lives in a type wide enough that it cannot overflow even
        // when every byte of the text opens a brace.
        let mut open: u128 = 2;
        while pos < text.len() && open > 0
            invariant
                pos <= text@.len(),
                open <= pos + 2,
                pos + open >= 2,
                brace_end_from(text@, 0, 2) == brace_end_from(text@, pos as int, open as nat),
            decreases text@.len() - pos,
        {
            let c = text[pos];
            if c == OPEN_BRACE {
                open += 1;
            } else if c == CLOSE_BRACE {
                open -= 1;
            }
            pos += 1;
        }
        if open == 0 {
            Some(pos)
        } else {
            None
        }
    }
}

/// No byte opens or closes a brace.
pub open spec fn brace_free(s: Seq<u8>) -> bool {
    forall|k: int| 0 <= k < s.len() ==> s[k] != OPEN_BRACE && s[k] != CLOSE_BRACE
}

/// Brace counting passes over a brace-free stretch unchanged.
proof fn lemma_brace_skip_free(s: Seq<u8>, i: int, j: int, open: nat)
    requires
        0 <= i <= j <= s.len(),
        open > 0,
        forall|k: int| i <= k < j ==> s[k] != OPEN_BRACE && s[k] != CLOSE_BRACE,
    ensures
        brace_end_from(s, i, open) == brace_end_from(s, j, open),
    decreases j - i,
{
    if i < j {
        assert(next_depth(open, s[i]) == open);
        lemma_brace_skip_free(s, i + 1, j, open);
    }
}

/// Nested delimiter-shaped values are skipped: in a start marker whose
/// parameter text wraps one value in its own delimiter pair, the resolved
/// end lies just past the marker's own close, after the nested construct,
/// never at the nested construct's first close.
pub proof fn lemma_nested_value_skipped(x: Seq<u8>, y: Seq<u8>, z: Seq<u8>, rest: Seq<u8>)
    requires
        brace_free(x),
        brace_free(y),
        brace_free(z),
    ensures
        get_template_end_spec(
            x + seq![OPEN_BRACE, OPEN_BRACE] + y + seq![CLOSE_BRACE, CLOSE_BRACE] + z + seq![
                CLOSE_BRACE,
                CLOSE_BRACE,
            ] + rest,
        ) == Some((x.len() + y.len() + z.len() + 6) as int),
{
    let full = x + seq![OPEN_BRACE, OPEN_BRACE] + y + seq![CLOSE_BRACE, CLOSE_BRACE] + z + seq![
        CLOSE_BRACE,
        CLOSE_BRACE,
    ] + rest;
    let a = x.len() as int;
    let b = a + 2 + y.len();
    let c = b + 2 + z.len();
    assert(forall|k: int| 0 <= k < a ==> full[k] == x[k]);
    lemma_brace_skip_free(full, 0, a, 2);
    assert(full[a] == OPEN_BRACE);
    assert(full[a + 1] == OPEN_BRACE);
    assert(brace_end_from(full, a, 2) == brace_end_from(full, a + 1, 3));
    assert(brace_end_from(full, a + 1, 3) == brace_end_from(full, a + 2, 4));
    assert(forall|k: int| a + 2 <= k < b ==> full[k] == y[k - (a + 2)]);
    lemma_brace_skip_free(full, a + 2, b, 4);
    assert(full[b] == CLOSE_BRACE);
    assert(full[b + 1] == CLOSE_BRACE);
    assert(brace_end_from(full, b, 4) == brace_end_from(full, b + 1, 3));
    assert(brace_end_from(full, b + 1, 3) == brace_end_from(full, b + 2, 2));
    assert(forall|k: int| b + 2 <= k < c ==> full[k] == z[k - (b + 2)]);
    lemma_brace_skip_free(full, b + 2, c, 2);
    assert(full[c] == CLOSE_BRACE);
    assert(full[c + 1] == CLOSE_BRACE);
    assert(brace_end_from(full, c, 2) == brace_end_from(full, c + 1, 1));
    assert(brace_end_from(full, c + 1, 1) == brace_end_from(full, c + 2, 0));
    assert(brace_end_from(full, c + 2, 0) == Some(c + 2));
}

/// The same law at the level of locating: when the text between the start
/// match and the end match wraps one parameter value in its own delimiter
/// pair, the located start-marker span runs to the marker's own close —
/// past the nested value, never to the nested value's first close.
pub proof fn lemma_locate_end_past_nested(
    doc: Seq<u8>,
    sp: Seq<char>,
    ep: Seq<char>,
    ss: int,
    se: int,
    es: int,
    ee: int,
    x: Seq<u8>,
    y: Seq<u8>,
    z: Seq<u8>,
    rest: Seq<u8>,
    m: PageElementModel,
)
    requires
        regex_find(sp, doc, 0) == Some((ss, se)),
        se >= ss + 2,
        regex_find(ep, doc, ss) == Some((es, ee)),
        es >= se,
        doc.subrange(se, es) == x + seq![OPEN_BRACE, OPEN_BRACE] + y + seq![
            CLOSE_BRACE,
            CLOSE_BRACE,
        ] + z + seq![CLOSE_BRACE, CLOSE_BRACE] + rest,
        brace_free(x),
        brace_free(y),
        brace_free(z),
        locate_spec(doc, sp, ep) == Some(m),
    ensures
        m.template_start == doc.subrange(ss, se + x.len() + y.len() + z.len() + 6),
{
    lemma_nested_value_skipped(x, y, z, rest);
}

/// Round-trip law: reassembling a located paired block with its own payload
/// body reproduces the document exactly, when the located payload region is
/// that body padded by the one newline on each side that reassembly adds.
pub proof fn lemma_round_trip(m: PageElementModel, doc: Seq<u8>, payload: Seq<u8>)
    requires
        reconstructs(m, doc),
        !m.is_just_text,
        !m.self_closing,
        m.inside == seq![NEWLINE] + payload + seq![NEWLINE],
    ensures
        as_wikitext_spec(m, payload) == doc,
{
    assert(as_wikitext_spec(m, payload) =~= m.before + m.template_start + m.inside
        + m.template_end + m.after);
}

/// Self-closing law: when the start pattern matches but the end pattern
/// matches nowhere at or after the start match, a located block is
/// self-closing, with empty payload and empty end-marker span.
pub proof fn lemma_self_closing_form(
    doc: Seq<u8>,
    sp: Seq<char>,
    ep: Seq<char>,
    ss: int,
    se: int,
    m: PageElementModel,
)
    requires
        regex_find(sp, doc, 0) == Some((ss, se)),
        regex_find(ep, doc, ss) is None,
        locate_spec(doc, sp, ep) == Some(m),
    ensures
        m.self_closing,
        m.inside == Seq::<u8>::empty(),
        m.template_end == Seq::<u8>::empty(),
{
}

/// Overlap law: an end match that starts before the start match ends is
/// malformed, and locating returns nothing rather than guessing.
pub proof fn lemma_overlapping_match_rejected(
    doc: Seq<u8>,
    sp: Seq<char>,
    ep: Seq<char>,
    ss: int,
    se: int,
    es: int,
    ee: int,
)
    requires
        regex_find(sp, doc, 0) == Some((ss, se)),
        regex_find(ep, doc, ss) == Some((es, ee)),
        es < se,
    ensures
        locate_spec(doc, sp, ep) is None,
{
}

/// Appends a copy of `src` to `dst`.
fn extend_from(dst: &mut Vec<u8>, src: &Vec<u8>)
    ensures
        final(dst)@ == old(dst)@ + src@,
{
    let mut i: usize = 0;
    while i < src.len()
        invariant
            i <= src@.len(),
            dst@ == old(dst)@ + src@.subrange(0, i as int),
        decreases src@.len() - i,
    {
        dst.push(src[i]);
        proof {
            assert(dst@ =~= old(dst)@ + src@.subrange(0, i + 1 as int));
        }
        i += 1;
    }
    proof {
        assert(dst@ =~= old(dst)@ + src@);
    }
}

} // verus!
