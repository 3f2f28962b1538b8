//! The whole generation pipeline: extract the matching declarations,
//! classify every parameter, and emit one wrapper artifact per declaration,
//! in declaration order.
//!
//! A classification or parse failure for any one declaration aborts the run
//! entirely, rather than skipping the offending function: a partially
//! generated surface without the caller's means to know what is missing
//! would be a stability trap.

use vstd::prelude::*;

use crate::classify::{classify_params_spec, desc_models, GenError};
use crate::emit::{emit_wrapper, classify_function, wrapper_text};
use crate::extract::{extract_signatures, extract_spec, sig_models, SigModel};

verus! {

/// What generating from a sequence of extracted signatures yields: the
/// concatenated wrapper artifacts, or the first failure.
pub open spec fn generate_from_sigs_spec(sigs: Seq<SigModel>) -> Result<Seq<u8>, GenError>
    decreases sigs.len(),
{
    if sigs.len() == 0 {
        Ok(Seq::empty())
    } else {
        match classify_params_spec(sigs[0].raw_params) {
            Err(e) => Err(e),
            Ok(ds) => match generate_from_sigs_spec(sigs.drop_first()) {
                Err(e) => Err(e),
                Ok(rest) => Ok(wrapper_text(sigs[0].name, ds) + rest),
            },
        }
    }
}

/// What generating from a block of declaration text yields: the wrapper
/// artifacts of every declaration returning the status-code type, in
/// declaration order, or the first failure of the run.
pub open spec fn generate_spec(text: Seq<u8>, status: Seq<u8>) -> Result<Seq<u8>, GenError> {
    match extract_spec(text, status) {
        Err(e) => Err(e),
        Ok(sigs) => generate_from_sigs_spec(sigs),
    }
}

/// Runs the full pipeline over declaration text: extraction, classification
/// and emission, failing fast on the first malformed or unsupported
/// declaration.
pub fn generate(text: &Vec<u8>, status: &Vec<u8>) -> (r: Result<Vec<u8>, GenError>)
    ensures
        match r {
            Ok(out) => generate_spec(text@, status@) == Ok::<Seq<u8>, GenError>(out@),
            Err(e) => generate_spec(text@, status@) == Err::<Seq<u8>, GenError>(e),
        },
{
    let sigs = match extract_signatures(text, status) {
        Ok(sigs) => sigs,
        Err(e) => {
            return Err(e);
        },
    };
    let ghost models = sig_models(sigs@);
    let mut out: Vec<u8> = Vec::new();
    let mut idx: usize = 0;
    proof {
        assert(models.skip(0) =~= models);
    }
    while idx < sigs.len()
        invariant
            idx <= sigs@.len(),
            models == sig_models(sigs@),
            generate_spec(text@, status@) == match generate_from_sigs_spec(
                models.skip(idx as int),
            ) {
                Ok(rest) => Ok::<Seq<u8>, GenError>(out@ + rest),
                Err(e) => Err::<Seq<u8>, GenError>(e),
            },
        decreases sigs@.len() - idx,
    {
        proof {
            let rest = models.skip(idx as int);
            assert(rest[0] == sigs@[idx as int]@);
            assert(rest.drop_first() =~= models.skip(idx as int + 1));
        }
        let cf = match classify_function(&sigs[idx]) {
            Ok(cf) => cf,
            Err(e) => {
                return Err(e);
            },
        };
        let mut piece = emit_wrapper(&cf);
        let ghost before = out@;
        let ghost piece_view = piece@;
        out.append(&mut piece);
        proof {
            assert(piece_view == wrapper_text(sigs@[idx as int]@.name, desc_models(cf.params@)));
            assert forall|rest2: Seq<u8>| true implies before + (piece_view + rest2) =~= out@
                + rest2 by {}
        }
        idx = idx + 1;
    }
    proof {
        assert(models.skip(models.len() as int) =~= Seq::<SigModel>::empty());
        assert(out@ + Seq::<u8>::empty() =~= out@);
    }
    Ok(out)
}

/// Regenerating from unchanged input text yields byte-identical output: the
/// artifact is a function of the input text and the status-code type name
/// alone, so two runs over the same input agree byte for byte.
pub proof fn lemma_generate_deterministic(
    text: Seq<u8>,
    status: Seq<u8>,
    r1: Result<Seq<u8>, GenError>,
    r2: Result<Seq<u8>, GenError>,
)
    requires
        r1 == generate_spec(text, status),
        r2 == generate_spec(text, status),
    ensures
        r1 == r2,
{
}

} // verus!
