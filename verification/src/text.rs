//! Byte-level text machinery shared by the extractor and the classifier:
//! blank-trimming, newline stripping, separator splitting and whitespace
//! tokenization, each with the spec function that defines it.

use vstd::prelude::*;

verus! {

pub const SPACE: u8 = 32;
pub const TAB: u8 = 9;
pub const LF: u8 = 10;
pub const CR: u8 = 13;
pub const COMMA: u8 = 44;
pub const COLON: u8 = 58;
pub const LPAREN: u8 = 40;
pub const RPAREN: u8 = 41;
pub const DASH: u8 = 45;
pub const GT: u8 = 62;

/// An insignificant in-line blank: space or tab.
pub open spec fn is_blank(b: u8) -> bool {
    b == SPACE || b == TAB
}

/// A line-break byte, removed wholesale before classification.
pub open spec fn is_break(b: u8) -> bool {
    b == LF || b == CR
}

/// A byte an identifier may consist of: a letter, a digit or an underscore.
pub open spec fn is_ident_byte(b: u8) -> bool {
    (97 <= b && b <= 122) || (65 <= b && b <= 90) || (48 <= b && b <= 57) || b == 95
}

/// Every byte of the sequence is an identifier byte.
pub open spec fn all_ident(s: Seq<u8>) -> bool {
    forall|i: int| 0 <= i < s.len() ==> is_ident_byte(#[trigger] s[i])
}

/// The sequence with every line-break byte removed.
pub open spec fn strip_breaks(s: Seq<u8>) -> Seq<u8>
    decreases s.len(),
{
    if s.len() == 0 {
        Seq::empty()
    } else if is_break(s[0]) {
        strip_breaks(s.drop_first())
    } else {
        seq![s[0]] + strip_breaks(s.drop_first())
    }
}

/// The sequence without its leading blanks.
pub open spec fn trim_front(s: Seq<u8>) -> Seq<u8>
    decreases s.len(),
{
    if s.len() > 0 && is_blank(s[0]) {
        trim_front(s.drop_first())
    } else {
        s
    }
}

/// The sequence without its trailing blanks.
pub open spec fn trim_back(s: Seq<u8>) -> Seq<u8>
    decreases s.len(),
{
    if s.len() > 0 && is_blank(s.last()) {
        trim_back(s.drop_last())
    } else {
        s
    }
}

/// The sequence without leading and trailing blanks.
pub open spec fn trim_spec(s: Seq<u8>) -> Seq<u8> {
    trim_back(trim_front(s))
}

/// The index of the first occurrence of a byte, or the length if it never
/// occurs.
pub open spec fn find_first(s: Seq<u8>, t: u8) -> int
    decreases s.len(),
{
    if s.len() == 0 {
        0
    } else if s[0] == t {
        0
    } else {
        1 + find_first(s.drop_first(), t)
    }
}

/// Where the first occurrence sits: within bounds it is the byte looked for,
/// and nothing before it is.
pub proof fn lemma_find_first(s: Seq<u8>, t: u8)
    ensures
        0 <= find_first(s, t) <= s.len(),
        find_first(s, t) < s.len() ==> s[find_first(s, t)] == t,
        forall|k: int| 0 <= k < find_first(s, t) ==> s[k] != t,
    decreases s.len(),
{
    if s.len() == 0 {
    } else if s[0] == t {
    } else {
        lemma_find_first(s.drop_first(), t);
        assert forall|k: int| 0 <= k < find_first(s, t) implies s[k] != t by {
            if k > 0 {
                assert(s[k] == s.drop_first()[k - 1]);
            }
        }
    }
}

/// A found position pins `find_first` down exactly.
pub proof fn lemma_find_first_at(s: Seq<u8>, t: u8, i: int)
    requires
        0 <= i <= s.len(),
        forall|k: int| 0 <= k < i ==> s[k] != t,
        i < s.len() ==> s[i] == t,
    ensures
        find_first(s, t) == i,
    decreases i,
{
    if s.len() == 0 {
    } else if i == 0 {
    } else {
        lemma_find_first_at(s.drop_first(), t, i - 1);
    }
}

/// The pieces of the sequence between occurrences of a separator byte, in
/// order; a sequence without the separator is one piece, and every separator
/// ends a piece, so a trailing separator yields a final empty piece.
pub open spec fn split_on(s: Seq<u8>, sep: u8) -> Seq<Seq<u8>>
    decreases s.len(),
    via split_on_decreases
{
    let i = find_first(s, sep);
    if i == s.len() {
        seq![s]
    } else {
        seq![s.take(i)] + split_on(s.skip(i + 1), sep)
    }
}

#[via_fn]
proof fn split_on_decreases(s: Seq<u8>, sep: u8) {
    lemma_find_first(s, sep);
}

/// Unfolds one split step at a known separator position.
pub proof fn lemma_split_on_step(s: Seq<u8>, sep: u8, i: int)
    requires
        0 <= i < s.len(),
        s[i] == sep,
        forall|k: int| 0 <= k < i ==> s[k] != sep,
    ensures
        split_on(s, sep) == seq![s.take(i)] + split_on(s.skip(i + 1), sep),
{
    lemma_find_first_at(s, sep, i);
    lemma_find_first(s, sep);
}

/// A sequence free of the separator splits into itself alone.
pub proof fn lemma_split_on_whole(s: Seq<u8>, sep: u8)
    requires
        forall|k: int| 0 <= k < s.len() ==> s[k] != sep,
    ensures
        split_on(s, sep) == seq![s],
{
    lemma_find_first_at(s, sep, s.len() as int);
}

/// The maximal runs of non-blank bytes, in order: the tokens of a type
/// expression.
pub open spec fn tokens_of(s: Seq<u8>) -> Seq<Seq<u8>>
    decreases s.len(),
    via tokens_of_decreases
{
    if s.len() == 0 {
        Seq::empty()
    } else if is_blank(s[0]) {
        tokens_of(s.drop_first())
    } else {
        let e = token_end(s);
        seq![s.take(e)] + tokens_of(s.skip(e))
    }
}

#[via_fn]
proof fn tokens_of_decreases(s: Seq<u8>) {
    lemma_token_end(s);
}

/// The index just past the leading non-blank run.
pub open spec fn token_end(s: Seq<u8>) -> int
    decreases s.len(),
{
    if s.len() == 0 {
        0
    } else if is_blank(s[0]) {
        0
    } else {
        1 + token_end(s.drop_first())
    }
}

/// Where the leading token ends: every byte before is non-blank, and the
/// byte there, if any, is blank.
pub proof fn lemma_token_end(s: Seq<u8>)
    ensures
        0 <= token_end(s) <= s.len(),
        forall|k: int| 0 <= k < token_end(s) ==> !is_blank(#[trigger] s[k]),
        token_end(s) < s.len() ==> is_blank(s[token_end(s)]),
        s.len() > 0 && !is_blank(s[0]) ==> token_end(s) > 0,
    decreases s.len(),
{
    if s.len() == 0 {
    } else if is_blank(s[0]) {
    } else {
        lemma_token_end(s.drop_first());
        assert forall|k: int| 0 <= k < token_end(s) implies !is_blank(#[trigger] s[k]) by {
            if k > 0 {
                assert(s[k] == s.drop_first()[k - 1]);
            }
        }
    }
}

/// A known run of non-blank bytes ending at a blank (or at the end) pins
/// `token_end` down exactly.
pub proof fn lemma_token_end_at(s: Seq<u8>, e: int)
    requires
        0 <= e <= s.len(),
        forall|k: int| 0 <= k < e ==> !is_blank(#[trigger] s[k]),
        e < s.len() ==> is_blank(s[e]),
    ensures
        token_end(s) == e,
    decreases e,
{
    if s.len() == 0 {
    } else if e == 0 {
    } else {
        lemma_token_end_at(s.drop_first(), e - 1);
    }
}

/// The views of a sequence of byte vectors.
pub open spec fn views(v: Seq<Vec<u8>>) -> Seq<Seq<u8>> {
    Seq::new(v.len(), |i: int| v[i]@)
}

/// Appending one byte extends `strip_breaks` by that byte, or by nothing if
/// it is a line break.
pub proof fn lemma_strip_breaks_push(s: Seq<u8>, b: u8)
    ensures
        strip_breaks(s.push(b)) == strip_breaks(s) + (if is_break(b) {
            Seq::<u8>::empty()
        } else {
            seq![b]
        }),
    decreases s.len(),
{
    if s.len() == 0 {
        assert(s.push(b)[0] == b);
        assert(s.push(b).drop_first() =~= Seq::<u8>::empty());
        assert(strip_breaks(Seq::<u8>::empty()) =~= Seq::<u8>::empty());
        if is_break(b) {
            assert(strip_breaks(s.push(b)) =~= strip_breaks(s) + Seq::<u8>::empty());
        } else {
            assert(strip_breaks(s.push(b)) =~= seq![b] + strip_breaks(Seq::<u8>::empty()));
            assert(strip_breaks(s.push(b)) =~= strip_breaks(s) + seq![b]);
        }
    } else {
        assert(s.push(b).drop_first() =~= s.drop_first().push(b));
        lemma_strip_breaks_push(s.drop_first(), b);
        if !is_break(s[0]) {
            assert(seq![s[0]] + strip_breaks(s.drop_first().push(b)) =~= (seq![s[0]]
                + strip_breaks(s.drop_first())) + (if is_break(b) {
                Seq::<u8>::empty()
            } else {
                seq![b]
            }));
        }
    }
}

/// A blank prefix ending at a non-blank byte (or at the end) pins
/// `trim_front` down to the suffix from there.
pub proof fn lemma_trim_front_at(s: Seq<u8>, i: int)
    requires
        0 <= i <= s.len(),
        forall|k: int| 0 <= k < i ==> is_blank(#[trigger] s[k]),
        i < s.len() ==> !is_blank(s[i]),
    ensures
        trim_front(s) == s.skip(i),
    decreases i,
{
    if i == 0 {
        assert(s.skip(0) =~= s);
    } else {
        lemma_trim_front_at(s.drop_first(), i - 1);
        assert(s.drop_first().skip(i - 1) =~= s.skip(i));
    }
}

/// A blank suffix starting after a non-blank byte (or at the start) pins
/// `trim_back` down to the prefix up to there.
pub proof fn lemma_trim_back_at(s: Seq<u8>, j: int)
    requires
        0 <= j <= s.len(),
        forall|k: int| j <= k < s.len() ==> is_blank(#[trigger] s[k]),
        j > 0 ==> !is_blank(s[j - 1]),
    ensures
        trim_back(s) == s.take(j),
    decreases s.len(),
{
    if j == s.len() {
        if s.len() > 0 && is_blank(s.last()) {
        } else {
            assert(s.take(j) =~= s);
        }
    } else {
        lemma_trim_back_at(s.drop_last(), j);
        assert(s.drop_last().take(j) =~= s.take(j));
    }
}

/// Copies the byte range `i..j` out of a vector.
pub fn subrange_vec(s: &Vec<u8>, i: usize, j: usize) -> (r: Vec<u8>)
    requires
        i <= j <= s@.len(),
    ensures
        r@ == s@.subrange(i as int, j as int),
{
    let mut r: Vec<u8> = Vec::new();
    let mut k: usize = i;
    while k < j
        invariant
            i <= k <= j <= s@.len(),
            r@ == s@.subrange(i as int, k as int),
        decreases j - k,
    {
        r.push(s[k]);
        assert(s@.subrange(i as int, k as int + 1) =~= s@.subrange(i as int, k as int).push(
            s@[k as int],
        ));
        k = k + 1;
    }
    r
}

/// Removes every line break, then trims leading and trailing blanks.
pub fn normalize(s: &Vec<u8>) -> (r: Vec<u8>)
    ensures
        r@ == trim_spec(strip_breaks(s@)),
{
    let mut kept: Vec<u8> = Vec::new();
    let mut idx: usize = 0;
    while idx < s.len()
        invariant
            idx <= s@.len(),
            kept@ == strip_breaks(s@.take(idx as int)),
        decreases s@.len() - idx,
    {
        let b = s[idx];
        proof {
            lemma_strip_breaks_push(s@.take(idx as int), b);
            assert(s@.take(idx as int + 1) =~= s@.take(idx as int).push(s@[idx as int]));
        }
        if !(b == LF || b == CR) {
            kept.push(b);
        }
        idx = idx + 1;
    }
    proof {
        assert(s@.take(s@.len() as int) =~= s@);
    }
    let mut lo: usize = 0;
    while lo < kept.len() && (kept[lo] == SPACE || kept[lo] == TAB)
        invariant
            lo <= kept@.len(),
            forall|k: int| 0 <= k < lo ==> is_blank(#[trigger] kept@[k]),
        decreases kept@.len() - lo,
    {
        lo = lo + 1;
    }
    let mut hi: usize = kept.len();
    while hi > lo && (kept[hi - 1] == SPACE || kept[hi - 1] == TAB)
        invariant
            lo <= hi <= kept@.len(),
            forall|k: int| 0 <= k < lo ==> is_blank(#[trigger] kept@[k]),
            forall|k: int| hi <= k < kept@.len() ==> is_blank(#[trigger] kept@[k]),
        decreases hi,
    {
        hi = hi - 1;
    }
    proof {
        lemma_trim_front_at(kept@, lo as int);
        let tail = kept@.skip(lo as int);
        assert forall|k: int| hi - lo <= k < tail.len() implies is_blank(#[trigger] tail[k]) by {
            assert(tail[k] == kept@[k + lo]);
        }
        if hi > lo {
            assert(tail[hi - lo - 1] == kept@[hi - 1]);
        }
        lemma_trim_back_at(tail, hi - lo);
        assert(tail.take(hi - lo) =~= kept@.subrange(lo as int, hi as int));
    }
    subrange_vec(&kept, lo, hi)
}

/// The index of the first occurrence of a byte, or the length if it never
/// occurs.
pub fn find_first_exec(s: &Vec<u8>, t: u8) -> (r: usize)
    ensures
        r == find_first(s@, t),
{
    let mut idx: usize = 0;
    while idx < s.len()
        invariant
            idx <= s@.len(),
            forall|k: int| 0 <= k < idx ==> s@[k] != t,
        decreases s@.len() - idx,
    {
        if s[idx] == t {
            proof {
                lemma_find_first_at(s@, t, idx as int);
            }
            return idx;
        }
        idx = idx + 1;
    }
    proof {
        lemma_find_first_at(s@, t, s@.len() as int);
    }
    idx
}

/// Whether every byte is an identifier byte.
pub fn all_ident_exec(s: &Vec<u8>) -> (r: bool)
    ensures
        r == all_ident(s@),
{
    let mut idx: usize = 0;
    while idx < s.len()
        invariant
            idx <= s@.len(),
            forall|k: int| 0 <= k < idx ==> is_ident_byte(#[trigger] s@[k]),
        decreases s@.len() - idx,
    {
        let b = s[idx];
        let ok = (97 <= b && b <= 122) || (65 <= b && b <= 90) || (48 <= b && b <= 57) || b == 95;
        if !ok {
            return false;
        }
        idx = idx + 1;
    }
    true
}

/// Splits a vector at every occurrence of the separator byte.
pub fn split_on_exec(s: &Vec<u8>, sep: u8) -> (r: Vec<Vec<u8>>)
    ensures
        views(r@) == split_on(s@, sep),
{
    let mut out: Vec<Vec<u8>> = Vec::new();
    let mut start: usize = 0;
    let mut idx: usize = 0;
    proof {
        assert(s@.skip(0) =~= s@);
        assert(views(Seq::<Vec<u8>>::empty()) + split_on(s@, sep) =~= split_on(s@, sep));
    }
    while idx < s.len()
        invariant
            start <= idx <= s@.len(),
            forall|k: int| start <= k < idx ==> s@[k] != sep,
            split_on(s@, sep) == views(out@) + split_on(s@.skip(start as int), sep),
        decreases s@.len() - idx,
    {
        if s[idx] == sep {
            let piece = subrange_vec(s, start, idx);
            proof {
                let rest = s@.skip(start as int);
                assert forall|k: int| 0 <= k < idx - start implies rest[k] != sep by {
                    assert(rest[k] == s@[k + start]);
                }
                assert(rest[idx - start] == s@[idx as int]);
                lemma_split_on_step(rest, sep, idx - start);
                assert(rest.take(idx - start) =~= s@.subrange(start as int, idx as int));
                assert(rest.skip(idx - start + 1) =~= s@.skip(idx as int + 1));
                assert(views(out@.push(piece)) =~= views(out@) + seq![piece@]);
                assert(views(out@) + (seq![piece@] + split_on(s@.skip(idx as int + 1), sep))
                    =~= views(out@.push(piece)) + split_on(s@.skip(idx as int + 1), sep));
            }
            out.push(piece);
            start = idx + 1;
        }
        idx = idx + 1;
    }
    let piece = subrange_vec(s, start, s.len());
    proof {
        let rest = s@.skip(start as int);
        assert forall|k: int| 0 <= k < rest.len() implies rest[k] != sep by {
            assert(rest[k] == s@[k + start]);
        }
        lemma_split_on_whole(rest, sep);
        assert(rest =~= s@.subrange(start as int, s@.len() as int));
        assert(views(out@.push(piece)) =~= views(out@) + seq![piece@]);
    }
    out.push(piece);
    out
}

/// The maximal runs of non-blank bytes, in order.
pub fn tokens_exec(s: &Vec<u8>) -> (r: Vec<Vec<u8>>)
    ensures
        views(r@) == tokens_of(s@),
{
    let mut out: Vec<Vec<u8>> = Vec::new();
    let mut idx: usize = 0;
    proof {
        assert(s@.skip(0) =~= s@);
        assert(views(Seq::<Vec<u8>>::empty()) + tokens_of(s@) =~= tokens_of(s@));
    }
    while idx < s.len()
        invariant
            idx <= s@.len(),
            tokens_of(s@) == views(out@) + tokens_of(s@.skip(idx as int)),
        decreases s@.len() - idx,
    {
        if s[idx] == SPACE || s[idx] == TAB {
            proof {
                let rest = s@.skip(idx as int);
                assert(rest[0] == s@[idx as int]);
                assert(rest.drop_first() =~= s@.skip(idx as int + 1));
            }
            idx = idx + 1;
        } else {
            let run_start = idx;
            let mut run_end: usize = idx;
            while run_end < s.len() && !(s[run_end] == SPACE || s[run_end] == TAB)
                invariant
                    run_start <= run_end <= s@.len(),
                    forall|k: int| run_start <= k < run_end ==> !is_blank(#[trigger] s@[k]),
                decreases s@.len() - run_end,
            {
                run_end = run_end + 1;
            }
            let piece = subrange_vec(s, run_start, run_end);
            proof {
                let rest = s@.skip(run_start as int);
                assert forall|k: int| 0 <= k < run_end - run_start implies !is_blank(
                    #[trigger] rest[k],
                ) by {
                    assert(rest[k] == s@[k + run_start]);
                }
                if run_end < s@.len() {
                    assert(rest[run_end - run_start] == s@[run_end as int]);
                }
                lemma_token_end_at(rest, run_end - run_start);
                assert(rest[0] == s@[run_start as int]);
                assert(rest.take(run_end - run_start) =~= s@.subrange(
                    run_start as int,
                    run_end as int,
                ));
                assert(rest.skip(run_end - run_start) =~= s@.skip(run_end as int));
                assert(views(out@.push(piece)) =~= views(out@) + seq![piece@]);
                assert(views(out@) + (seq![piece@] + tokens_of(s@.skip(run_end as int))) =~= views(
                    out@.push(piece),
                ) + tokens_of(s@.skip(run_end as int)));
            }
            out.push(piece);
            idx = run_end;
        }
    }
    proof {
        assert(s@.skip(s@.len() as int) =~= Seq::<u8>::empty());
        assert(views(out@) + Seq::<Seq<u8>>::empty() =~= views(out@));
    }
    out
}

} // verus!
