//! The wrapper emitter: renders one classified function as source text — a
//! parameter-holder type with one field per descriptor, and a wrapper
//! function that re-derives, per field, the exact call expression its
//! declared indirection level requires, and feeds the returned status code
//! into the result translation.
//!
//! The rendering is a pure function of the classified input, so regenerating
//! from unchanged input is byte-identical. The call expression inverts the
//! classification exactly: a level-zero field is read by value, a level-one
//! field contributes the address of the holder's storage, and a level-two
//! field contributes that address reinterpreted as a pointer to a pointer.

use vstd::prelude::*;
use vstd::slice::slice_to_vec;
use vstd::string::StringSliceAdditionalSpecFns;

use crate::classify::{
    classify_fragment_spec, classify_params, declared_depth, desc_models, fragment_shaped,
    lemma_supported_depth_classified, DescModel, GenError, ParameterDescriptor,
};
use crate::extract::FunctionSignature;

verus! {

/// One classified declaration, ready for emission: the function name and
/// its descriptors in declaration order.
#[derive(Debug, Clone, PartialEq, Eq)]
pub struct ClassifiedFunction {
    pub name: Vec<u8>,
    pub params: Vec<ParameterDescriptor>,
}

/// How the wrapper hands one field to the underlying call.
#[derive(Debug, Clone, Copy, PartialEq, Eq)]
pub enum CallMode {
    /// The written value itself: pointer depth zero.
    ValueRead,
    /// The address of the holder's storage: pointer depth one.
    StorageAddress,
    /// The address of the storage reinterpreted as a pointer to a pointer:
    /// pointer depth two.
    StorageAddressPtrPtr,
}

/// The pointer depth of a call expression built in the given mode.
pub open spec fn mode_depth(m: CallMode) -> nat {
    match m {
        CallMode::ValueRead => 0,
        CallMode::StorageAddress => 1,
        CallMode::StorageAddressPtrPtr => 2,
    }
}

/// The call mode the emitter derives from a classified indirection level.
pub open spec fn mode_of_level(level: nat) -> CallMode {
    if level == 0 {
        CallMode::ValueRead
    } else if level == 1 {
        CallMode::StorageAddress
    } else {
        CallMode::StorageAddressPtrPtr
    }
}

/// The emitter's call mode for one descriptor.
pub fn call_mode_for(d: &ParameterDescriptor) -> (m: CallMode)
    requires
        d@.indirection <= 2,
    ensures
        m == mode_of_level(d@.indirection),
        mode_depth(m) == d@.indirection,
{
    if d.indirection == 0 {
        CallMode::ValueRead
    } else if d.indirection == 1 {
        CallMode::StorageAddress
    } else {
        CallMode::StorageAddressPtrPtr
    }
}

/// For every supported indirection level, the call expression the emitter
/// derives for a classified fragment has pointer depth equal to the depth
/// the fragment declared: declared depth, classified level and re-derived
/// call depth all agree.
pub proof fn lemma_call_depth_round_trip(f: Seq<u8>)
    requires
        fragment_shaped(f),
        0 <= declared_depth(f) <= 2,
    ensures
        classify_fragment_spec(f) matches Ok(Some(d)) && d.indirection == declared_depth(f)
            && mode_depth(mode_of_level(d.indirection)) == declared_depth(f),
{
    lemma_supported_depth_classified(f);
}

/// The bytes of a source-text literal.
pub open spec fn lit(s: &str) -> Seq<u8> {
    s.spec_bytes()
}

/// The holder field emitted for one descriptor: a buffer of the base type
/// for levels zero and one, a buffer of a pointer to the base type for
/// level two.
pub open spec fn field_line(d: DescModel) -> Seq<u8> {
    if d.indirection == 2 {
        lit("    ") + d.name + lit(": Buf<Ptr<") + d.base_type + lit(">>,\n")
    } else {
        lit("    ") + d.name + lit(": Buf<") + d.base_type + lit(">,\n")
    }
}

/// The holder fields of a descriptor list, in declaration order.
pub open spec fn fields_text(ds: Seq<DescModel>) -> Seq<u8>
    decreases ds.len(),
{
    if ds.len() == 0 {
        Seq::empty()
    } else {
        field_line(ds[0]) + fields_text(ds.drop_first())
    }
}

/// The call expression emitted for one descriptor, per its call mode.
pub open spec fn arg_text(d: DescModel) -> Seq<u8> {
    match mode_of_level(d.indirection) {
        CallMode::ValueRead => lit("p.") + d.name + lit(".read()"),
        CallMode::StorageAddress => lit("out_ptr(&mut p.") + d.name + lit(")"),
        CallMode::StorageAddressPtrPtr => lit("out_ptr_ptr(&mut p.") + d.name + lit(")"),
    }
}

/// The call arguments of a descriptor list, separated by commas, in
/// declaration order: declaration order is call order.
pub open spec fn args_text(ds: Seq<DescModel>) -> Seq<u8>
    decreases ds.len(),
{
    if ds.len() == 0 {
        Seq::empty()
    } else if ds.len() == 1 {
        arg_text(ds[0])
    } else {
        arg_text(ds[0]) + lit(", ") + args_text(ds.drop_first())
    }
}

/// Whether the wrapper needs exclusive mutable access to the holder: true
/// exactly when some field has indirection level one or more, because the
/// call will write into the holder's storage.
pub open spec fn needs_mut(ds: Seq<DescModel>) -> bool {
    exists|i: int| 0 <= i < ds.len() && (#[trigger] ds[i]).indirection >= 1
}

/// The full wrapper artifact for one classified function: the holder type,
/// then the wrapper function, whose names are derived from the input name
/// by a fixed prefix rule.
pub open spec fn wrapper_text(name: Seq<u8>, ds: Seq<DescModel>) -> Seq<u8> {
    lit("pub struct par_") + name + lit(" {\n") + fields_text(ds) + lit("}\n") + lit("pub fn gen_")
        + name + lit("(") + (if needs_mut(ds) {
        lit("mut ")
    } else {
        Seq::<u8>::empty()
    }) + lit("p: par_") + name + lit(") -> BrpResult<par_") + name + lit("> {\n    try_ok(") + name
        + lit("(") + args_text(ds) + lit("), p)\n}\n")
}

impl ClassifiedFunction {
    /// Whether the emitted wrapper takes the holder by exclusive mutable
    /// access rather than by value.
    pub fn needs_mutable_handle(&self) -> (r: bool)
        ensures
            r == needs_mut(desc_models(self.params@)),
    {
        let mut idx: usize = 0;
        while idx < self.params.len()
            invariant
                idx <= self.params@.len(),
                forall|k: int|
                    0 <= k < idx ==> (#[trigger] desc_models(self.params@)[k]).indirection == 0,
            decreases self.params@.len() - idx,
        {
            if self.params[idx].indirection >= 1 {
                proof {
                    assert(desc_models(self.params@)[idx as int].indirection >= 1);
                }
                return true;
            }
            proof {
                assert(desc_models(self.params@)[idx as int] == self.params@[idx as int]@);
            }
            idx = idx + 1;
        }
        false
    }
}

/// Classifies one extracted signature's parameter list.
pub fn classify_function(sig: &FunctionSignature) -> (r: Result<ClassifiedFunction, GenError>)
    ensures
        match r {
            Ok(cf) => crate::classify::classify_params_spec(sig@.raw_params) == Ok::<
                Seq<DescModel>,
                GenError,
            >(desc_models(cf.params@)) && cf.name@ == sig@.name && forall|i: int|
                0 <= i < cf.params@.len() ==> (#[trigger] cf.params@[i])@.indirection <= 2,
            Err(e) => crate::classify::classify_params_spec(sig@.raw_params) == Err::<
                Seq<DescModel>,
                GenError,
            >(e),
        },
{
    match classify_params(&sig.raw_params) {
        Ok(params) => Ok(ClassifiedFunction { name: sig.name.clone(), params }),
        Err(e) => Err(e),
    }
}

/// Appends a source-text literal to the artifact.
fn push_lit(out: &mut Vec<u8>, s: &str)
    ensures
        final(out)@ == old(out)@ + s.spec_bytes(),
{
    let bytes = s.as_bytes();
    let mut piece = slice_to_vec(bytes);
    out.append(&mut piece);
}

/// Appends a copy of a byte vector to the artifact.
fn push_bytes(out: &mut Vec<u8>, v: &Vec<u8>)
    ensures
        final(out)@ == old(out)@ + v@,
{
    let mut piece = slice_to_vec(v.as_slice());
    out.append(&mut piece);
}

/// Renders the holder fields of a classified function.
fn emit_fields(params: &Vec<ParameterDescriptor>) -> (r: Vec<u8>)
    ensures
        r@ == fields_text(desc_models(params@)),
{
    let ghost models = desc_models(params@);
    let mut out: Vec<u8> = Vec::new();
    let mut idx: usize = 0;
    proof {
        assert(models.skip(0) =~= models);
        assert(Seq::<u8>::empty() + fields_text(models) =~= fields_text(models));
    }
    while idx < params.len()
        invariant
            idx <= params@.len(),
            models == desc_models(params@),
            fields_text(models) == out@ + fields_text(models.skip(idx as int)),
        decreases params@.len() - idx,
    {
        let d = &params[idx];
        proof {
            let rest = models.skip(idx as int);
            assert(rest[0] == models[idx as int]);
            assert(models[idx as int] == params@[idx as int]@);
            assert(rest.drop_first() =~= models.skip(idx as int + 1));
        }
        let ghost before = out@;
        push_lit(&mut out, "    ");
        push_bytes(&mut out, &d.name);
        if d.indirection == 2 {
            push_lit(&mut out, ": Buf<Ptr<");
            push_bytes(&mut out, &d.base_type);
            push_lit(&mut out, ">>,\n");
        } else {
            push_lit(&mut out, ": Buf<");
            push_bytes(&mut out, &d.base_type);
            push_lit(&mut out, ">,\n");
        }
        proof {
            assert(out@ =~= before + field_line(models[idx as int]));
            assert(before + (field_line(models[idx as int]) + fields_text(
                models.skip(idx as int + 1),
            )) =~= (before + field_line(models[idx as int])) + fields_text(
                models.skip(idx as int + 1),
            ));
        }
        idx = idx + 1;
    }
    proof {
        assert(models.skip(models.len() as int) =~= Seq::<DescModel>::empty());
        assert(out@ + Seq::<u8>::empty() =~= out@);
    }
    out
}

/// Renders the comma-separated call arguments of a classified function.
fn emit_args(params: &Vec<ParameterDescriptor>) -> (r: Vec<u8>)
    requires
        forall|i: int| 0 <= i < params@.len() ==> (#[trigger] params@[i])@.indirection <= 2,
    ensures
        r@ == args_text(desc_models(params@)),
{
    let ghost models = desc_models(params@);
    let mut out: Vec<u8> = Vec::new();
    let mut idx: usize = 0;
    while idx < params.len()
        invariant
            idx <= params@.len(),
            models == desc_models(params@),
            forall|i: int| 0 <= i < params@.len() ==> (#[trigger] params@[i])@.indirection <= 2,
            idx == 0 ==> out@ == Seq::<u8>::empty(),
            0 < idx < params@.len() ==> args_text(models) == out@ + lit(", ") + args_text(
                models.skip(idx as int),
            ),
            idx == params@.len() && idx > 0 ==> args_text(models) == out@,
        decreases params@.len() - idx,
    {
        let d = &params[idx];
        proof {
            let rest = models.skip(idx as int);
            assert(rest[0] == models[idx as int]);
            assert(models[idx as int] == params@[idx as int]@);
            assert(rest.drop_first() =~= models.skip(idx as int + 1));
        }
        let ghost before = out@;
        if idx > 0 {
            push_lit(&mut out, ", ");
        }
        proof {
            assert(params@[idx as int]@.indirection <= 2);
        }
        let mode = call_mode_for(d);
        match mode {
            CallMode::ValueRead => {
                push_lit(&mut out, "p.");
                push_bytes(&mut out, &d.name);
                push_lit(&mut out, ".read()");
            },
            CallMode::StorageAddress => {
                push_lit(&mut out, "out_ptr(&mut p.");
                push_bytes(&mut out, &d.name);
                push_lit(&mut out, ")");
            },
            CallMode::StorageAddressPtrPtr => {
                push_lit(&mut out, "out_ptr_ptr(&mut p.");
                push_bytes(&mut out, &d.name);
                push_lit(&mut out, ")");
            },
        }
        proof {
            let rest = models.skip(idx as int);
            if idx == 0 {
                assert(out@ =~= arg_text(models[0]));
                if params@.len() > 1 {
                    assert(args_text(models.skip(0)) == arg_text(models[0]) + lit(", ")
                        + args_text(models.skip(1)));
                    assert(models.skip(0) =~= models);
                    assert(args_text(models) =~= out@ + lit(", ") + args_text(models.skip(1)));
                } else {
                    assert(models.skip(0) =~= models);
                    assert(args_text(models) =~= out@);
                }
            } else {
                assert(out@ =~= before + lit(", ") + arg_text(rest[0]));
                if rest.len() > 1 {
                    assert(args_text(rest) == arg_text(rest[0]) + lit(", ") + args_text(
                        rest.drop_first(),
                    ));
                    assert(args_text(models) =~= out@ + lit(", ") + args_text(
                        models.skip(idx as int + 1),
                    ));
                } else {
                    assert(args_text(rest) == arg_text(rest[0]));
                    assert(args_text(models) =~= out@);
                }
            }
        }
        idx = idx + 1;
    }
    proof {
        if params@.len() == 0 {
            assert(args_text(models) =~= Seq::<u8>::empty());
        }
    }
    out
}

/// Renders the full wrapper artifact for one classified function.
pub fn emit_wrapper(cf: &ClassifiedFunction) -> (r: Vec<u8>)
    requires
        forall|i: int| 0 <= i < cf.params@.len() ==> (#[trigger] cf.params@[i])@.indirection <= 2,
    ensures
        r@ == wrapper_text(cf.name@, desc_models(cf.params@)),
{
    let ghost models = desc_models(cf.params@);
    let mut out: Vec<u8> = Vec::new();
    push_lit(&mut out, "pub struct par_");
    push_bytes(&mut out, &cf.name);
    push_lit(&mut out, " {\n");
    let fields = emit_fields(&cf.params);
    push_bytes(&mut out, &fields);
    push_lit(&mut out, "}\n");
    push_lit(&mut out, "pub fn gen_");
    push_bytes(&mut out, &cf.name);
    push_lit(&mut out, "(");
    if cf.needs_mutable_handle() {
        push_lit(&mut out, "mut ");
    }
    push_lit(&mut out, "p: par_");
    push_bytes(&mut out, &cf.name);
    push_lit(&mut out, ") -> BrpResult<par_");
    push_bytes(&mut out, &cf.name);
    push_lit(&mut out, "> {\n    try_ok(");
    push_bytes(&mut out, &cf.name);
    push_lit(&mut out, "(");
    let args = emit_args(&cf.params);
    push_bytes(&mut out, &args);
    push_lit(&mut out, "), p)\n}\n");
    proof {
        assert(out@ =~= wrapper_text(cf.name@, models));
    }
    out
}

} // verus!
