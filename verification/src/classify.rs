//! The parameter classifier: splits a raw parameter list into descriptors,
//! each with its identifier, base type and pointer indirection level.
//!
//! A raw list is split on the top-level comma. Per fragment, line breaks are
//! removed and surrounding blanks trimmed; an empty fragment (a trailing
//! separator) is dropped. The fragment must then match the `name: type`
//! shape, or the whole run fails with a parse error. The type expression is
//! split on blanks; the rightmost token is the base type and every preceding
//! token is a pointer or qualifier marker, so the indirection level is the
//! token count less one. A level outside zero, one and two is a loud
//! classification failure, never a silent default.

use vstd::prelude::*;

use crate::text::{
    all_ident, all_ident_exec, find_first, find_first_exec, normalize, split_on, split_on_exec,
    strip_breaks, tokens_exec, tokens_of, trim_spec, views, COLON, COMMA,
};

verus! {

/// Why a generation run failed: a declaration or fragment that does not
/// match the normalized grammar, or an indirection level this layer does not
/// support.
#[derive(Debug, Clone, PartialEq, Eq)]
pub enum GenError {
    GenerationParse,
    UnsupportedIndirection,
}

/// One classified parameter: its name, the base type (the rightmost token of
/// the type expression), and the indirection level (the count of marker
/// tokens before the base type).
#[derive(Debug, Clone, PartialEq, Eq)]
pub struct ParameterDescriptor {
    pub name: Vec<u8>,
    pub base_type: Vec<u8>,
    pub indirection: u32,
}

/// The mathematical content of a descriptor.
pub struct DescModel {
    pub name: Seq<u8>,
    pub base_type: Seq<u8>,
    pub indirection: nat,
}

impl View for ParameterDescriptor {
    type V = DescModel;

    open spec fn view(&self) -> DescModel {
        DescModel {
            name: self.name@,
            base_type: self.base_type@,
            indirection: self.indirection as nat,
        }
    }
}

/// The fragment after normalization: line breaks removed, surrounding
/// blanks trimmed.
pub open spec fn normalized(f: Seq<u8>) -> Seq<u8> {
    trim_spec(strip_breaks(f))
}

/// The normalized fragment matches the `name: type` shape: it has a colon,
/// a nonempty identifier before it, and at least one type token after it.
pub open spec fn fragment_shaped(f: Seq<u8>) -> bool {
    let n = normalized(f);
    let c = find_first(n, COLON);
    &&& n.len() > 0
    &&& c < n.len()
    &&& n.take(c).len() > 0
    &&& all_ident(n.take(c))
    &&& tokens_of(n.skip(c + 1)).len() > 0
}

/// The indirection depth a fragment declares: the count of type tokens
/// beyond the base type.
pub open spec fn declared_depth(f: Seq<u8>) -> int {
    let n = normalized(f);
    let c = find_first(n, COLON);
    tokens_of(n.skip(c + 1)).len() - 1
}

/// What classifying one fragment yields: nothing for an empty fragment, a
/// descriptor for a well-shaped one, and the error that aborts the run
/// otherwise.
pub open spec fn classify_fragment_spec(f: Seq<u8>) -> Result<Option<DescModel>, GenError> {
    let n = normalized(f);
    if n.len() == 0 {
        Ok(None)
    } else if !fragment_shaped(f) {
        Err(GenError::GenerationParse)
    } else if declared_depth(f) > 2 {
        Err(GenError::UnsupportedIndirection)
    } else {
        let c = find_first(n, COLON);
        let toks = tokens_of(n.skip(c + 1));
        Ok(
            Some(
                DescModel {
                    name: n.take(c),
                    base_type: toks.last(),
                    indirection: (toks.len() - 1) as nat,
                },
            ),
        )
    }
}

/// What classifying a list of fragments yields, in order; the first failure
/// aborts the run.
pub open spec fn classify_fragments_spec(frags: Seq<Seq<u8>>) -> Result<Seq<DescModel>, GenError>
    decreases frags.len(),
{
    if frags.len() == 0 {
        Ok(Seq::empty())
    } else {
        match classify_fragment_spec(frags[0]) {
            Err(e) => Err(e),
            Ok(None) => classify_fragments_spec(frags.drop_first()),
            Ok(Some(d)) => match classify_fragments_spec(frags.drop_first()) {
                Err(e) => Err(e),
                Ok(rest) => Ok(seq![d] + rest),
            },
        }
    }
}

/// What classifying a raw parameter list yields: the fragments between
/// top-level commas, classified in declaration order.
pub open spec fn classify_params_spec(raw: Seq<u8>) -> Result<Seq<DescModel>, GenError> {
    classify_fragments_spec(split_on(raw, COMMA))
}

/// The models of a vector of descriptors.
pub open spec fn desc_models(v: Seq<ParameterDescriptor>) -> Seq<DescModel> {
    Seq::new(v.len(), |i: int| v[i]@)
}

/// Classifies one comma-free fragment.
pub fn classify_fragment(f: &Vec<u8>) -> (r: Result<Option<ParameterDescriptor>, GenError>)
    ensures
        match r {
            Ok(Some(d)) => classify_fragment_spec(f@) == Ok::<Option<DescModel>, GenError>(
                Some(d@),
            ) && d@.indirection <= 2,
            Ok(None) => classify_fragment_spec(f@) == Ok::<Option<DescModel>, GenError>(
                None::<DescModel>,
            ),
            Err(e) => classify_fragment_spec(f@) == Err::<Option<DescModel>, GenError>(e),
        },
{
    let n = normalize(f);
    if n.len() == 0 {
        return Ok(None);
    }
    let c = find_first_exec(&n, COLON);
    if c == n.len() {
        return Err(GenError::GenerationParse);
    }
    proof {
        crate::text::lemma_find_first(n@, COLON);
    }
    let name = crate::text::subrange_vec(&n, 0, c);
    proof {
        assert(n@.subrange(0, c as int) =~= n@.take(c as int));
    }
    if name.len() == 0 || !all_ident_exec(&name) {
        return Err(GenError::GenerationParse);
    }
    let type_expr = crate::text::subrange_vec(&n, c + 1, n.len());
    proof {
        assert(n@.subrange(c as int + 1, n@.len() as int) =~= n@.skip(c as int + 1));
    }
    let toks = tokens_exec(&type_expr);
    if toks.len() == 0 {
        return Err(GenError::GenerationParse);
    }
    let level = toks.len() - 1;
    if level > 2 {
        return Err(GenError::UnsupportedIndirection);
    }
    let base = &toks[toks.len() - 1];
    proof {
        assert(views(toks@)[toks@.len() - 1] == toks@[toks@.len() - 1]@);
        assert(tokens_of(type_expr@).last() == toks@[toks@.len() - 1]@);
    }
    Ok(
        Some(
            ParameterDescriptor {
                name,
                base_type: base.clone(),
                indirection: level as u32,
            },
        ),
    )
}

/// Splits a raw parameter list on the top-level comma and classifies every
/// fragment, in declaration order; the first failure aborts.
pub fn classify_params(raw: &Vec<u8>) -> (r: Result<Vec<ParameterDescriptor>, GenError>)
    ensures
        match r {
            Ok(ds) => classify_params_spec(raw@) == Ok::<Seq<DescModel>, GenError>(
                desc_models(ds@),
            ) && forall|i: int| 0 <= i < ds@.len() ==> (#[trigger] ds@[i])@.indirection <= 2,
            Err(e) => classify_params_spec(raw@) == Err::<Seq<DescModel>, GenError>(e),
        },
{
    let frags = split_on_exec(raw, COMMA);
    let mut out: Vec<ParameterDescriptor> = Vec::new();
    let mut idx: usize = 0;
    proof {
        assert(views(frags@).skip(0) =~= views(frags@));
        assert(desc_models(Seq::<ParameterDescriptor>::empty()) =~= Seq::<DescModel>::empty());
    }
    while idx < frags.len()
        invariant
            idx <= frags@.len(),
            classify_params_spec(raw@) == match classify_fragments_spec(
                views(frags@).skip(idx as int),
            ) {
                Ok(rest) => Ok::<Seq<DescModel>, GenError>(desc_models(out@) + rest),
                Err(e) => Err::<Seq<DescModel>, GenError>(e),
            },
            forall|i: int| 0 <= i < out@.len() ==> (#[trigger] out@[i])@.indirection <= 2,
        decreases frags@.len() - idx,
    {
        proof {
            let rest = views(frags@).skip(idx as int);
            assert(rest[0] == frags@[idx as int]@);
            assert(rest.drop_first() =~= views(frags@).skip(idx as int + 1));
        }
        match classify_fragment(&frags[idx]) {
            Err(e) => {
                return Err(e);
            },
            Ok(None) => {},
            Ok(Some(d)) => {
                proof {
                    assert(desc_models(out@.push(d)) =~= desc_models(out@) + seq![d@]);
                    assert forall|rest2: Seq<DescModel>|
                        true implies desc_models(out@) + (seq![d@] + rest2) =~= desc_models(
                        out@.push(d),
                    ) + rest2 by {}
                }
                out.push(d);
            },
        }
        idx = idx + 1;
    }
    proof {
        assert(views(frags@).skip(frags@.len() as int) =~= Seq::<Seq<u8>>::empty());
        assert(desc_models(out@) + Seq::<DescModel>::empty() =~= desc_models(out@));
    }
    Ok(out)
}

/// For every fragment whose declared depth lies outside the supported set,
/// classification fails loudly with `UnsupportedIndirection` and never
/// defaults to level zero.
pub proof fn lemma_unsupported_indirection_fails(f: Seq<u8>)
    requires
        fragment_shaped(f),
        declared_depth(f) > 2,
    ensures
        classify_fragment_spec(f) == Err::<Option<DescModel>, GenError>(
            GenError::UnsupportedIndirection,
        ),
{
}

/// For every fragment whose declared depth is a supported level, the
/// classified indirection equals the declared depth.
pub proof fn lemma_supported_depth_classified(f: Seq<u8>)
    requires
        fragment_shaped(f),
        0 <= declared_depth(f) <= 2,
    ensures
        classify_fragment_spec(f) matches Ok(Some(d)) && d.indirection == declared_depth(f),
{
}

} // verus!
