//! Parsing the text inside a start marker into a specification: a declared
//! name (the template title) followed by `|`-separated parameters.
//!
//! Separators count only at nesting depth zero: a parameter value may itself
//! contain brace-delimited constructs, and `|` or `=` inside those belong to
//! the value. Depth is tracked by counting `{` up and `}` down, never below
//! zero. A parameter without a `=` at depth zero is stored under its 1-based
//! ordinal (among the unnamed parameters) rendered in decimal; when a name is
//! given twice, the last occurrence wins.

use vstd::prelude::*;

verus! {

/// Byte value of `{`.
pub const OPEN_BRACE: u8 = 123;
/// Byte value of `|`.
pub const PIPE: u8 = 124;
/// Byte value of `}`.
pub const CLOSE_BRACE: u8 = 125;
/// Byte value of `=`.
pub const EQUALS: u8 = 61;

/// Nesting depth after reading byte `c` at depth `d`; never drops below zero.
pub open spec fn next_depth(d: nat, c: u8) -> nat {
    if c == OPEN_BRACE {
        d + 1
    } else if c == CLOSE_BRACE {
        if d > 0 {
            (d - 1) as nat
        } else {
            0
        }
    } else {
        d
    }
}

/// Index of the first occurrence of `sep` at depth zero, scanning `s` from
/// index `i` with current depth `d`.
pub open spec fn first_sep_at(s: Seq<u8>, sep: u8, i: int, d: nat) -> Option<int>
    decreases s.len() - i,
{
    if i < 0 || i >= s.len() {
        None
    } else if s[i] == sep && d == 0 {
        Some(i)
    } else {
        first_sep_at(s, sep, i + 1, next_depth(d, s[i]))
    }
}

/// The segments of `s` split at every depth-zero `|`, scanning from index `i`
/// at depth `d` with the partial segment `cur` and the finished segments `acc`.
pub open spec fn split_top_acc(s: Seq<u8>, i: int, d: nat, cur: Seq<u8>, acc: Seq<Seq<u8>>) -> Seq<
    Seq<u8>,
>
    decreases s.len() - i,
{
    if i < 0 || i >= s.len() {
        acc.push(cur)
    } else if s[i] == PIPE && d == 0 {
        split_top_acc(s, i + 1, 0, Seq::empty(), acc.push(cur))
    } else {
        split_top_acc(s, i + 1, next_depth(d, s[i]), cur.push(s[i]), acc)
    }
}

/// The segments of `s` split at every depth-zero `|`; always at least one.
pub open spec fn split_top(s: Seq<u8>) -> Seq<Seq<u8>> {
    split_top_acc(s, 0, 0, Seq::empty(), Seq::empty())
}

/// Splitting yields every segment already finished, plus at least one more.
pub proof fn lemma_split_top_acc_len(s: Seq<u8>, i: int, d: nat, cur: Seq<u8>, acc: Seq<Seq<u8>>)
    ensures
        split_top_acc(s, i, d, cur, acc).len() > acc.len(),
    decreases s.len() - i,
{
    if i < 0 || i >= s.len() {
    } else if s[i] == PIPE && d == 0 {
        lemma_split_top_acc_len(s, i + 1, 0, Seq::empty(), acc.push(cur));
    } else {
        lemma_split_top_acc_len(s, i + 1, next_depth(d, s[i]), cur.push(s[i]), acc);
    }
}

/// The decimal digits of `n`, most significant first.
pub open spec fn dec_of(n: nat) -> Seq<u8>
    decreases n,
{
    if n < 10 {
        seq![(48 + n) as u8]
    } else {
        dec_of(n / 10).push((48 + n % 10) as u8)
    }
}

/// The decimal digits of `n` as bytes.
pub fn dec_bytes(n: u64) -> (r: Vec<u8>)
    ensures
        r@ == dec_of(n as nat),
    decreases n,
{
    if n < 10 {
        let mut r: Vec<u8> = Vec::new();
        r.push(48 + n as u8);
        proof {
            assert(r@ =~= dec_of(n as nat));
        }
        r
    } else {
        let mut r = dec_bytes(n / 10);
        r.push(48 + (n % 10) as u8);
        proof {
            assert(r@ =~= dec_of(n as nat));
        }
        r
    }
}

/// Finds the first depth-zero occurrence of `sep` in `s`.
pub fn find_top(s: &Vec<u8>, sep: u8) -> (r: Option<usize>)
    ensures
        match r {
            Some(j) => first_sep_at(s@, sep, 0, 0) == Some(j as int) && j < s@.len(),
            None => first_sep_at(s@, sep, 0, 0) is None,
        },
{
    let mut i: usize = 0;
    let mut d: usize = 0;
    while i < s.len()
        invariant
            i <= s@.len(),
            d <= i,
            first_sep_at(s@, sep, 0, 0) == first_sep_at(s@, sep, i as int, d as nat),
        decreases s@.len() - i,
    {
        let c = s[i];
        if c == sep && d == 0 {
            return Some(i);
        }
        if c == OPEN_BRACE {
            d += 1;
        } else if c == CLOSE_BRACE {
            if d > 0 {
                d -= 1;
            }
        }
        i += 1;
    }
    None
}

/// The parameter map built from the segments `segs[i..]`, given that `unnamed`
/// parameters without a depth-zero `=` came before and `m` was built so far.
/// Later segments overwrite earlier ones of the same name.
pub open spec fn params_after(
    segs: Seq<Seq<u8>>,
    i: int,
    unnamed: nat,
    m: Map<Seq<u8>, Seq<u8>>,
) -> Map<Seq<u8>, Seq<u8>>
    decreases segs.len() - i,
{
    if i < 0 || i >= segs.len() {
        m
    } else {
        let s = segs[i];
        match first_sep_at(s, EQUALS, 0, 0) {
            Some(j) => params_after(
                segs,
                i + 1,
                unnamed,
                m.insert(s.subrange(0, j), s.subrange(j + 1, s.len() as int)),
            ),
            None => params_after(segs, i + 1, unnamed + 1, m.insert(dec_of(unnamed + 1), s)),
        }
    }
}

/// The declared name of the marker: the first depth-zero segment.
pub open spec fn template_title(inner: Seq<u8>) -> Seq<u8> {
    split_top(inner)[0]
}

/// The parameters of the marker: every segment after the first.
pub open spec fn template_params(inner: Seq<u8>) -> Map<Seq<u8>, Seq<u8>> {
    params_after(split_top(inner), 1, 0, Map::empty())
}

/// Whether the inner text of a marker carries a specification at all: the
/// declared name must be non-empty.
pub open spec fn parses(inner: Seq<u8>) -> bool {
    template_title(inner).len() > 0
}

/// The map described by a sequence of name/value pairs, later pairs winning.
pub open spec fn pairs_to_map(s: Seq<(Vec<u8>, Vec<u8>)>) -> Map<Seq<u8>, Seq<u8>>
    decreases s.len(),
{
    if s.len() == 0 {
        Map::empty()
    } else {
        pairs_to_map(s.drop_last()).insert(s.last().0@, s.last().1@)
    }
}

/// Appending one pair inserts its name into the described map.
pub proof fn lemma_pairs_push(s: Seq<(Vec<u8>, Vec<u8>)>, p: (Vec<u8>, Vec<u8>))
    ensures
        pairs_to_map(s.push(p)) == pairs_to_map(s).insert(p.0@, p.1@),
{
    assert(s.push(p).drop_last() =~= s);
    assert(s.push(p).last() == p);
}

/// A parsed marker specification: the declared name and the named parameters.
#[derive(Debug, Clone)]
pub struct Template {
    title: Vec<u8>,
    params: Vec<(Vec<u8>, Vec<u8>)>,
}

impl Template {
    /// The declared name.
    pub closed spec fn title_spec(self) -> Seq<u8> {
        self.title@
    }

    /// The parameter map, duplicates already resolved in favour of the last.
    pub closed spec fn params_spec(self) -> Map<Seq<u8>, Seq<u8>> {
        pairs_to_map(self.params@)
    }

    /// The empty specification: no name, no parameters.
    pub fn empty() -> (r: Template)
        ensures
            r.title_spec() == Seq::<u8>::empty(),
            r.params_spec() == Map::<Seq<u8>, Seq<u8>>::empty(),
    {
        Template { title: Vec::new(), params: Vec::new() }
    }

    /// Parses the inner text of a start marker (between the outer delimiters)
    /// into a specification. Returns nothing exactly when the declared name
    /// is empty.
    pub fn new_from_params(inner: &Vec<u8>) -> (r: Option<Template>)
        ensures
            r is Some <==> parses(inner@),
            r matches Some(t) ==> t.title_spec() == template_title(inner@) && t.params_spec()
                == template_params(inner@),
    {
        let segs = split_segments(inner);
        proof {
            lemma_split_top_acc_len(inner@, 0, 0, Seq::empty(), Seq::empty());
        }
        let first = &segs[0];
        let title = subvec(first, 0, first.len());
        proof {
            assert(title@ =~= segs@.map_values(|v: Vec<u8>| v@)[0]);
        }
        if title.len() == 0 {
            return None;
        }
        let ghost segsm = segs@.map_values(|v: Vec<u8>| v@);
        let mut params: Vec<(Vec<u8>, Vec<u8>)> = Vec::new();
        let mut unnamed: usize = 0;
        let mut k: usize = 1;
        while k < segs.len()
            invariant
                1 <= k <= segs@.len(),
                unnamed < k,
                segsm == segs@.map_values(|v: Vec<u8>| v@),
                params_after(segsm, k as int, unnamed as nat, pairs_to_map(params@))
                    == params_after(segsm, 1, 0, Map::empty()),
            decreases segs@.len() - k,
        {
            let seg = &segs[k];
            assert(segsm[k as int] == seg@);
            let ghost before = pairs_to_map(params@);
            match find_top(seg, EQUALS) {
                Some(j) => {
                    let name = subvec(seg, 0, j);
                    let value = subvec(seg, j + 1, seg.len());
                    proof {
                        lemma_pairs_push(params@, (name, value));
                    }
                    params.push((name, value));
                }
                None => {
                    unnamed += 1;
                    let name = dec_bytes(unnamed as u64);
                    let value = subvec(seg, 0, seg.len());
                    proof {
                        assert(value@ =~= seg@);
                        lemma_pairs_push(params@, (name, value));
                    }
                    params.push((name, value));
                }
            }
            k += 1;
        }
        Some(Template { title, params })
    }

    /// The declared name.
    pub fn get_title(&self) -> (r: &Vec<u8>)
        ensures
            r@ == self.title_spec(),
    {
        &self.title
    }

    /// Looks a parameter up by name; the last stored occurrence wins.
    pub fn get_param(&self, name: &Vec<u8>) -> (r: Option<&Vec<u8>>)
        ensures
            match r {
                Some(v) => self.params_spec().contains_key(name@) && self.params_spec()[name@]
                    == v@,
                None => !self.params_spec().contains_key(name@),
            },
    {
        let mut k: usize = self.params.len();
        while k > 0
            invariant
                k <= self.params@.len(),
                forall|l: int| k <= l < self.params@.len() ==> self.params@[l].0@ != name@,
            decreases k,
        {
            k -= 1;
            if self.params[k].0 == *name {
                proof {
                    assert(self.params@[k as int].0@ =~= name@);
                    lemma_pairs_map_lookup(self.params@, name@, k as int);
                }
                return Some(&self.params[k].1);
            }
            proof {
                if self.params@[k as int].0@ =~= name@ {
                    assert(false);
                }
            }
        }
        proof {
            lemma_pairs_map_absent(self.params@, name@);
        }
        None
    }
}

/// The map described by pairs with `key` at `k` and nowhere later holds the
/// value stored at `k`.
proof fn lemma_pairs_map_lookup(s: Seq<(Vec<u8>, Vec<u8>)>, key: Seq<u8>, k: int)
    requires
        0 <= k < s.len(),
        s[k].0@ == key,
        forall|l: int| k < l < s.len() ==> s[l].0@ != key,
    ensures
        pairs_to_map(s).contains_key(key),
        pairs_to_map(s)[key] == s[k].1@,
    decreases s.len(),
{
    if k < s.len() - 1 {
        lemma_pairs_map_lookup(s.drop_last(), key, k);
    }
}

/// A name on no pair is not in the described map.
proof fn lemma_pairs_map_absent(s: Seq<(Vec<u8>, Vec<u8>)>, key: Seq<u8>)
    requires
        forall|l: int| 0 <= l < s.len() ==> s[l].0@ != key,
    ensures
        !pairs_to_map(s).contains_key(key),
    decreases s.len(),
{
    if s.len() > 0 {
        lemma_pairs_map_absent(s.drop_last(), key);
    }
}

/// Copies `v[from..to]`.
pub fn subvec(v: &Vec<u8>, from: usize, to: usize) -> (r: Vec<u8>)
    requires
        from <= to <= v@.len(),
    ensures
        r@ == v@.subrange(from as int, to as int),
{
    let mut r: Vec<u8> = Vec::new();
    let mut i: usize = from;
    while i < to
        invariant
            from <= i <= to <= v@.len(),
            r@ == v@.subrange(from as int, i as int),
        decreases to - i,
    {
        r.push(v[i]);
        proof {
            assert(r@ =~= v@.subrange(from as int, i + 1 as int));
        }
        i += 1;
    }
    r
}

/// Splits `s` at every depth-zero `|`.
fn split_segments(s: &Vec<u8>) -> (r: Vec<Vec<u8>>)
    ensures
        r@.map_values(|v: Vec<u8>| v@) == split_top(s@),
{
    let mut i: usize = 0;
    let mut d: usize = 0;
    let mut cur: Vec<u8> = Vec::new();
    let mut segs: Vec<Vec<u8>> = Vec::new();
    proof {
        assert(segs@.map_values(|v: Vec<u8>| v@) =~= Seq::<Seq<u8>>::empty());
    }
    while i < s.len()
        invariant
            i <= s@.len(),
            d <= i,
            split_top(s@) == split_top_acc(
                s@,
                i as int,
                d as nat,
                cur@,
                segs@.map_values(|v: Vec<u8>| v@),
            ),
        decreases s@.len() - i,
    {
        let ghost old_segs = segs@.map_values(|v: Vec<u8>| v@);
        let c = s[i];
        if c == PIPE && d == 0 {
            segs.push(cur);
            cur = Vec::new();
            proof {
                assert(segs@.map_values(|v: Vec<u8>| v@) =~= old_segs.push(
                    segs@.last()@,
                ));
            }
        } else {
            if c == OPEN_BRACE {
                d += 1;
            } else if c == CLOSE_BRACE {
                if d > 0 {
                    d -= 1;
                }
            }
            cur.push(c);
        }
        i += 1;
    }
    let ghost old_segs = segs@.map_values(|v: Vec<u8>| v@);
    segs.push(cur);
    proof {
        assert(segs@.map_values(|v: Vec<u8>| v@) =~= old_segs.push(segs@.last()@));
    }
    segs
}

} // verus!
