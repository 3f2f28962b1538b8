//! The signature extractor: scans normalized declaration text, one
//! declaration per line, and yields a candidate for every function whose
//! return type is exactly the status-code type.
//!
//! A line with no arrow or with a different return type belongs to another
//! category of interface and is silently skipped. A line that does name the
//! status-code type but whose parameter syntax is unbalanced is a parse
//! error that aborts the whole run: a silent gap in the generated surface
//! would be worse than a build break.

use vstd::prelude::*;

use crate::classify::{normalized, GenError};
use crate::text::{
    all_ident, all_ident_exec, find_first, find_first_exec, normalize, split_on, split_on_exec,
    subrange_vec, views, DASH, GT, LF, LPAREN, RPAREN,
};

verus! {

/// One extracted candidate: the function's name and the raw text of its
/// parameter list, still unclassified.
#[derive(Debug, Clone, PartialEq, Eq)]
pub struct FunctionSignature {
    pub name: Vec<u8>,
    pub raw_params: Vec<u8>,
}

/// The mathematical content of a signature.
pub struct SigModel {
    pub name: Seq<u8>,
    pub raw_params: Seq<u8>,
}

impl View for FunctionSignature {
    type V = SigModel;

    open spec fn view(&self) -> SigModel {
        SigModel { name: self.name@, raw_params: self.raw_params@ }
    }
}

/// The index of the first `->`, or the length if there is none.
pub open spec fn find_arrow(s: Seq<u8>) -> int
    decreases s.len(),
{
    if s.len() < 2 {
        s.len() as int
    } else if s[0] == DASH && s[1] == GT {
        0
    } else {
        1 + find_arrow(s.drop_first())
    }
}

/// A found arrow position pins `find_arrow` down exactly.
pub proof fn lemma_find_arrow_at(s: Seq<u8>, i: int)
    requires
        0 <= i,
        i + 2 <= s.len(),
        s[i] == DASH,
        s[i + 1] == GT,
        forall|k: int| 0 <= k < i ==> !(#[trigger] s[k] == DASH && s[k + 1] == GT),
    ensures
        find_arrow(s) == i,
    decreases i,
{
    if i == 0 {
    } else {
        assert forall|k: int| 0 <= k < i - 1 implies !(#[trigger] s.drop_first()[k] == DASH
            && s.drop_first()[k + 1] == GT) by {
            assert(s.drop_first()[k] == s[k + 1]);
            assert(s.drop_first()[k + 1] == s[k + 2]);
        }
        assert(s.drop_first()[i - 1] == s[i]);
        assert(s.drop_first()[i] == s[i + 1]);
        lemma_find_arrow_at(s.drop_first(), i - 1);
    }
}

/// No arrow at all pins `find_arrow` to the length.
pub proof fn lemma_find_arrow_none(s: Seq<u8>)
    requires
        forall|k: int| 0 <= k && k + 2 <= s.len() ==> !(#[trigger] s[k] == DASH && s[k + 1] == GT),
    ensures
        find_arrow(s) == s.len(),
    decreases s.len(),
{
    if s.len() < 2 {
    } else {
        assert forall|k: int| 0 <= k && k + 2 <= s.drop_first().len() implies !(#[trigger] s.drop_first()[k]
            == DASH && s.drop_first()[k + 1] == GT) by {
            assert(s.drop_first()[k] == s[k + 1]);
            assert(s.drop_first()[k + 1] == s[k + 2]);
        }
        lemma_find_arrow_none(s.drop_first());
    }
}

/// The sequence holds no parenthesis.
pub open spec fn paren_free(s: Seq<u8>) -> bool {
    forall|k: int| 0 <= k < s.len() ==> #[trigger] s[k] != LPAREN && s[k] != RPAREN
}

/// What one line of declaration text yields: nothing for a blank line, a
/// line without an arrow, or a return type other than the status-code type;
/// a signature for a well-formed matching declaration; and the parse error
/// that aborts the run for a matching declaration whose parameter syntax is
/// unbalanced.
pub open spec fn line_extract_spec(line: Seq<u8>, status: Seq<u8>) -> Result<
    Option<SigModel>,
    GenError,
> {
    let t = normalized(line);
    if t.len() == 0 {
        Ok(None)
    } else {
        let a = find_arrow(t);
        if a + 2 > t.len() {
            Ok(None)
        } else {
            let ret = normalized(t.skip(a + 2));
            if ret != status {
                Ok(None)
            } else {
                let before = normalized(t.take(a));
                if before.len() == 0 || before.last() != RPAREN {
                    Err(GenError::GenerationParse)
                } else {
                    let p = find_first(before, LPAREN);
                    if p == before.len() {
                        Err(GenError::GenerationParse)
                    } else {
                        let name = before.take(p);
                        let params = before.subrange(p + 1, before.len() - 1);
                        if name.len() == 0 || !all_ident(name) {
                            Err(GenError::GenerationParse)
                        } else if !paren_free(params) {
                            Err(GenError::GenerationParse)
                        } else {
                            Ok(Some(SigModel { name, raw_params: params }))
                        }
                    }
                }
            }
        }
    }
}

/// What a block of lines yields, in order; the first parse error aborts.
pub open spec fn extract_lines_spec(lines: Seq<Seq<u8>>, status: Seq<u8>) -> Result<
    Seq<SigModel>,
    GenError,
>
    decreases lines.len(),
{
    if lines.len() == 0 {
        Ok(Seq::empty())
    } else {
        match line_extract_spec(lines[0], status) {
            Err(e) => Err(e),
            Ok(None) => extract_lines_spec(lines.drop_first(), status),
            Ok(Some(sig)) => match extract_lines_spec(lines.drop_first(), status) {
                Err(e) => Err(e),
                Ok(rest) => Ok(seq![sig] + rest),
            },
        }
    }
}

/// What extracting from a block of declaration text yields: its lines in
/// order, each handled by `line_extract_spec`.
pub open spec fn extract_spec(text: Seq<u8>, status: Seq<u8>) -> Result<Seq<SigModel>, GenError> {
    extract_lines_spec(split_on(text, LF), status)
}

/// The models of a vector of signatures.
pub open spec fn sig_models(v: Seq<FunctionSignature>) -> Seq<SigModel> {
    Seq::new(v.len(), |i: int| v[i]@)
}

/// Extracts the candidate from one line, if the line declares a function
/// returning the status-code type.
pub fn extract_line(line: &Vec<u8>, status: &Vec<u8>) -> (r: Result<
    Option<FunctionSignature>,
    GenError,
>)
    ensures
        match r {
            Ok(Some(sig)) => line_extract_spec(line@, status@) == Ok::<Option<SigModel>, GenError>(
                Some(sig@),
            ),
            Ok(None) => line_extract_spec(line@, status@) == Ok::<Option<SigModel>, GenError>(
                None::<SigModel>,
            ),
            Err(e) => line_extract_spec(line@, status@) == Err::<Option<SigModel>, GenError>(e),
        },
{
    let t = normalize(line);
    if t.len() == 0 {
        return Ok(None);
    }
    let a = find_arrow_exec(&t);
    if t.len() < 2 || a > t.len() - 2 {
        return Ok(None);
    }
    let after = subrange_vec(&t, a + 2, t.len());
    proof {
        assert(t@.subrange(a as int + 2, t@.len() as int) =~= t@.skip(a as int + 2));
    }
    let ret = normalize(&after);
    if !vec_eq(&ret, status) {
        return Ok(None);
    }
    let before_raw = subrange_vec(&t, 0, a);
    proof {
        assert(t@.subrange(0, a as int) =~= t@.take(a as int));
    }
    let before = normalize(&before_raw);
    if before.len() == 0 || before[before.len() - 1] != RPAREN {
        return Err(GenError::GenerationParse);
    }
    let p = find_first_exec(&before, LPAREN);
    if p == before.len() {
        return Err(GenError::GenerationParse);
    }
    proof {
        crate::text::lemma_find_first(before@, LPAREN);
    }
    let name = subrange_vec(&before, 0, p);
    proof {
        assert(before@.subrange(0, p as int) =~= before@.take(p as int));
    }
    let params = subrange_vec(&before, p + 1, before.len() - 1);
    if name.len() == 0 || !all_ident_exec(&name) {
        return Err(GenError::GenerationParse);
    }
    if !paren_free_exec(&params) {
        return Err(GenError::GenerationParse);
    }
    Ok(Some(FunctionSignature { name, raw_params: params }))
}

/// The index of the first `->`, or the length if there is none.
pub fn find_arrow_exec(s: &Vec<u8>) -> (r: usize)
    ensures
        r == find_arrow(s@),
{
    if s.len() < 2 {
        proof {
            lemma_find_arrow_none(s@);
        }
        return s.len();
    }
    let mut idx: usize = 0;
    while idx <= s.len() - 2
        invariant
            idx <= s@.len(),
            forall|k: int| 0 <= k < idx ==> !(#[trigger] s@[k] == DASH && s@[k + 1] == GT),
            s@.len() >= 2,
        decreases s@.len() - idx,
    {
        if s[idx] == DASH && s[idx + 1] == GT {
            proof {
                lemma_find_arrow_at(s@, idx as int);
            }
            return idx;
        }
        idx = idx + 1;
    }
    proof {
        lemma_find_arrow_none(s@);
    }
    s.len()
}

/// Whether two byte vectors hold the same bytes.
pub fn vec_eq(a: &Vec<u8>, b: &Vec<u8>) -> (r: bool)
    ensures
        r == (a@ == b@),
{
    if a.len() != b.len() {
        proof {
            assert(a@ != b@);
        }
        return false;
    }
    let mut idx: usize = 0;
    while idx < a.len()
        invariant
            idx <= a@.len(),
            a@.len() == b@.len(),
            forall|k: int| 0 <= k < idx ==> a@[k] == b@[k],
        decreases a@.len() - idx,
    {
        if a[idx] != b[idx] {
            return false;
        }
        idx = idx + 1;
    }
    proof {
        assert(a@ =~= b@);
    }
    true
}

/// Whether the vector is free of parentheses.
pub fn paren_free_exec(s: &Vec<u8>) -> (r: bool)
    ensures
        r == paren_free(s@),
{
    let mut idx: usize = 0;
    while idx < s.len()
        invariant
            idx <= s@.len(),
            forall|k: int| 0 <= k < idx ==> #[trigger] s@[k] != LPAREN && s@[k] != RPAREN,
        decreases s@.len() - idx,
    {
        if s[idx] == LPAREN || s[idx] == RPAREN {
            return false;
        }
        idx = idx + 1;
    }
    true
}

/// Extracts, in order, every declaration of the text whose return type is
/// the status-code type; the first malformed matching declaration aborts.
pub fn extract_signatures(text: &Vec<u8>, status: &Vec<u8>) -> (r: Result<
    Vec<FunctionSignature>,
    GenError,
>)
    ensures
        match r {
            Ok(sigs) => extract_spec(text@, status@) == Ok::<Seq<SigModel>, GenError>(
                sig_models(sigs@),
            ),
            Err(e) => extract_spec(text@, status@) == Err::<Seq<SigModel>, GenError>(e),
        },
{
    let lines = split_on_exec(text, LF);
    let mut out: Vec<FunctionSignature> = Vec::new();
    let mut idx: usize = 0;
    proof {
        assert(views(lines@).skip(0) =~= views(lines@));
        assert(sig_models(Seq::<FunctionSignature>::empty()) =~= Seq::<SigModel>::empty());
    }
    while idx < lines.len()
        invariant
            idx <= lines@.len(),
            extract_spec(text@, status@) == match extract_lines_spec(
                views(lines@).skip(idx as int),
                status@,
            ) {
                Ok(rest) => Ok::<Seq<SigModel>, GenError>(sig_models(out@) + rest),
                Err(e) => Err::<Seq<SigModel>, GenError>(e),
            },
        decreases lines@.len() - idx,
    {
        proof {
            let rest = views(lines@).skip(idx as int);
            assert(rest[0] == lines@[idx as int]@);
            assert(rest.drop_first() =~= views(lines@).skip(idx as int + 1));
        }
        match extract_line(&lines[idx], status) {
            Err(e) => {
                return Err(e);
            },
            Ok(None) => {},
            Ok(Some(sig)) => {
                proof {
                    assert(sig_models(out@.push(sig)) =~= sig_models(out@) + seq![sig@]);
                    assert forall|rest2: Seq<SigModel>|
                        true implies sig_models(out@) + (seq![sig@] + rest2) =~= sig_models(
                        out@.push(sig),
                    ) + rest2 by {}
                }
                out.push(sig);
            },
        }
        idx = idx + 1;
    }
    proof {
        assert(views(lines@).skip(lines@.len() as int) =~= Seq::<Seq<u8>>::empty());
        assert(sig_models(out@) + Seq::<SigModel>::empty() =~= sig_models(out@));
    }
    Ok(out)
}

} // verus!
