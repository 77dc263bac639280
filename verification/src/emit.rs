//! The instruction-driven emitter: an operand-stack machine that consumes
//! abstract lowering/lifting instructions for one function and produces the
//! Zig statements of its body.
//!
//! The machine is specified by `step`, a spec-level transition function over
//! `MachineState`; the executable `Emitter` is proved to follow `step`
//! instruction by instruction, and `run` folds `step` over a whole sequence.

use vstd::prelude::*;

use crate::ident::lower_camel_of;
use crate::ident::to_lower_camel;
use crate::text::join;
use crate::text::spec_dec;
use crate::text::spec_join;
use crate::text::u64_dec;
use crate::types::ErrM;
use crate::types::Function;
use crate::types::GenError;
use crate::types::ResultShape;
use crate::types::WasmSignature;
use crate::types::WasmType;
use crate::types::spec_wasm_spelling;
use crate::types::wasm_type_to_zig_type;

verus! {

/// One abstract lowering/lifting operation. The set mirrors the abstract
/// instruction stream of the component calling convention; a tag outside the
/// supported subset is carried as `Unsupported` and reported, never guessed
/// at.
#[derive(Debug)]
pub enum Instruction {
    /// Push the symbolic name of the n-th bound parameter.
    GetArg { nth: usize },
    /// Representation-identical conversions: the operand passes through
    /// unchanged and no text is emitted.
    I32FromS32,
    S32FromI32,
    I64FromS64,
    S64FromI64,
    F32FromFloat32,
    F64FromFloat64,
    Float32FromF32,
    Float64FromF64,
    /// Widen a small value into a 32-bit slot.
    I32FromU8,
    I32FromU16,
    I32FromS8,
    I32FromS16,
    I32FromChar,
    /// Same-width signed/unsigned reinterpretations: the bit pattern is
    /// kept.
    I32FromU32,
    I64FromU64,
    U32FromI32,
    U64FromI64,
    /// Narrow a slot value back to its declared width.
    S8FromI32,
    U8FromI32,
    S16FromI32,
    U16FromI32,
    CharFromI32,
    /// Lower a string value to (pointer, byte length).
    StringLower,
    /// Allocate a return area for an out-parameter convention; its address
    /// is pushed by `PushReturnPointer` wherever a call or access needs it.
    ReturnPointer { size: u32, align: u32 },
    /// Push the address of the return area again, for a read-back.
    PushReturnPointer,
    /// Call the externally linked low-level counterpart.
    CallWasm { name: String, sig: WasmSignature },
    /// Call the user-supplied high-level implementation.
    CallInterface { func: Function },
    /// Read a value of the given width at base + offset.
    I32Load { offset: u32 },
    I32Load8U { offset: u32 },
    I64Load { offset: u32 },
    /// Write a value of the given width at base + offset.
    I32Store { offset: u32 },
    I32Store8 { offset: u32 },
    I32Store16 { offset: u32 },
    I64Store { offset: u32 },
    /// Split an aggregate into one operand per element.
    TupleLower { arity: usize },
    /// Build an aggregate literal from one operand per element.
    TupleLift { arity: usize },
    /// Force the evaluation of the topmost operands; symbolic operands need
    /// no binding, so the operands stay as they are.
    Flush { amt: usize },
    /// Return the sole operand, or nothing.
    Return { amt: usize },
    /// An instruction tag outside the supported subset.
    Unsupported { tag: String },
}

/// The direction a function body is emitted in: an import calls out through
/// the named low-level module; an export calls the user-supplied
/// implementation addressed by the scope path.
#[derive(Debug)]
pub enum Direction {
    Import { module: String },
    Export { path: Vec<String> },
}

/// The spec-level mirror of `Direction`, over mathematical values.
pub ghost enum DirM {
    Imp(Seq<char>),
    Exp(Seq<Seq<char>>),
}

/// The spec-level value of a direction.
pub open spec fn dir_model(d: Direction) -> DirM {
    match d {
        Direction::Import { module } => DirM::Imp(module@),
        Direction::Export { path } => DirM::Exp(path.deep_view()),
    }
}

/// The spec-level state of the emitter: the operand stack, the emitted text,
/// the number of return statements emitted, the number of temporaries bound,
/// and whether a return area exists.
pub ghost struct MachineState {
    pub stack: Seq<Seq<char>>,
    pub text: Seq<char>,
    pub rets: nat,
    pub tmps: nat,
    pub retptr: bool,
}

impl MachineState {
    /// The state every function body starts from.
    pub open spec fn init() -> MachineState {
        MachineState {
            stack: Seq::empty(),
            text: Seq::empty(),
            rets: 0,
            tmps: 0,
            retptr: false,
        }
    }
}

/// A width conversion: a cast of `x` to the Zig type `ty`.
pub open spec fn spec_cast(ty: Seq<char>, x: Seq<char>) -> Seq<char> {
    "@as("@ + ty + ", @intCast("@ + x + "))"@
}

/// A same-width reinterpretation of `x` as the Zig type `ty`: the bit
/// pattern is kept, so no value can make it trap.
pub open spec fn spec_bitcast(ty: Seq<char>, x: Seq<char>) -> Seq<char> {
    "@as("@ + ty + ", @bitCast("@ + x + "))"@
}

/// The pointer operand of a lowered string.
pub open spec fn spec_string_ptr(s: Seq<char>) -> Seq<char> {
    "@as(i32, @intCast(@intFromPtr("@ + s + ".ptr)))"@
}

/// The byte-length operand of a lowered string.
pub open spec fn spec_string_len(s: Seq<char>) -> Seq<char> {
    "@as(i32, @intCast("@ + s + ".len))"@
}

/// The address operand of the return area.
pub open spec fn spec_ret_area_ptr() -> Seq<char> {
    "@intFromPtr(&ret_area)"@
}

/// The declaration of the return area, sized and aligned for the results it
/// will hold.
pub open spec fn spec_ret_area_stmt(size: nat, align: nat) -> Seq<char> {
    "var ret_area: ["@ + spec_dec(size) + "]u8 align("@ + spec_dec(align) + ") = undefined;\n"@
}

/// The memory access expression `base + offset`.
pub open spec fn spec_access(base: Seq<char>, off: nat) -> Seq<char> {
    base + " + "@ + spec_dec(off)
}

/// The name of the n-th bound temporary.
pub open spec fn spec_tmp_name(n: nat) -> Seq<char> {
    "tmp"@ + spec_dec(n)
}

/// A load statement: binds `dest` to a width-cast read at `base + off`.
pub open spec fn spec_load_stmt(
    dest: Seq<char>,
    prefix: Seq<char>,
    base: Seq<char>,
    off: nat,
    suffix: Seq<char>,
) -> Seq<char> {
    "const "@ + dest + " = "@ + prefix + spec_access(base, off) + suffix
}

/// A store statement: writes `value` through a width-cast pointer at
/// `base + off`.
pub open spec fn spec_store_stmt(
    prefix: Seq<char>,
    base: Seq<char>,
    off: nat,
    mid: Seq<char>,
    value: Seq<char>,
    suffix: Seq<char>,
) -> Seq<char> {
    prefix + spec_access(base, off) + mid + value + suffix
}

/// The Zig spellings of a list of slot kinds.
pub open spec fn spec_wasm_spellings(params: Seq<WasmType>) -> Seq<Seq<char>> {
    params.map_values(|t: WasmType| spec_wasm_spelling(t))
}

/// The result spelling of a low-level signature: `void`, or the sole result
/// slot's type.
pub open spec fn spec_wasm_result(results: Seq<WasmType>) -> Seq<char> {
    if results.len() == 0 {
        "void"@
    } else {
        spec_wasm_spelling(results[0])
    }
}

/// The declaration of the externally linked low-level counterpart.
pub open spec fn spec_extern_statement(
    module: Seq<char>,
    name: Seq<char>,
    params: Seq<WasmType>,
    results: Seq<WasmType>,
) -> Seq<char> {
    "extern \""@ + module + "\" fn @\""@ + name + "\"("@ + spec_join(
        spec_wasm_spellings(params),
        ", "@,
    ) + ") "@ + spec_wasm_result(results) + ";"@
}

/// `const ret = ` when the call's sole result is bound, nothing otherwise.
pub open spec fn spec_bind_prefix(bind: bool) -> Seq<char> {
    if bind {
        "const ret = "@
    } else {
        Seq::empty()
    }
}

/// The statement calling the externally linked counterpart, with the operands
/// in order.
pub open spec fn spec_call_wasm_stmt(
    bind: bool,
    module: Seq<char>,
    name: Seq<char>,
    params: Seq<WasmType>,
    results: Seq<WasmType>,
    args: Seq<Seq<char>>,
) -> Seq<char> {
    spec_bind_prefix(bind) + "(struct {\n"@ + spec_extern_statement(module, name, params, results)
        + "\n}).@\""@ + name + "\"("@ + spec_join(args, ", "@) + ");\n"@
}

/// The statement calling the user-supplied implementation under the scope
/// path, with the operands in order.
pub open spec fn spec_call_high_stmt(
    bind: bool,
    path: Seq<Seq<char>>,
    fname: Seq<char>,
    args: Seq<Seq<char>>,
) -> Seq<char> {
    spec_bind_prefix(bind) + "__user_exports."@ + (if path.len() == 0 {
        Seq::<char>::empty()
    } else {
        spec_join(path, "."@) + "."@
    }) + fname + "("@ + spec_join(args, ", "@) + ");\n"@
}

/// A return statement of the sole operand.
pub open spec fn spec_return_stmt(op: Seq<char>) -> Seq<char> {
    "return "@ + op + ";\n"@
}

/// The operands an aggregate is split into: one per element, in declared
/// order.
pub open spec fn spec_tuple_parts(x: Seq<char>, n: nat) -> Seq<Seq<char>> {
    Seq::new(n, |i: int| x + spec_dec(i as nat))
}

/// The aggregate literal built from one operand per element, in order.
pub open spec fn spec_tuple_lift(args: Seq<Seq<char>>) -> Seq<char> {
    ".{ "@ + spec_join(args, ", "@) + " }"@
}

/// A same-width reinterpretation: consumes one operand and pushes it back
/// unchanged.
pub open spec fn step_pass(st: MachineState) -> Result<MachineState, ErrM> {
    if st.stack.len() == 0 {
        Err(ErrM::Malformed)
    } else {
        Ok(st)
    }
}

/// A width conversion: consumes one operand and pushes its cast to `ty`.
pub open spec fn step_cast(st: MachineState, ty: Seq<char>) -> Result<MachineState, ErrM> {
    if st.stack.len() == 0 {
        Err(ErrM::Malformed)
    } else {
        Ok(
            MachineState {
                stack: st.stack.drop_last().push(spec_cast(ty, st.stack.last())),
                ..st
            },
        )
    }
}

/// A same-width signed/unsigned reinterpretation: consumes one operand and
/// pushes its bit-preserving cast to `ty`.
pub open spec fn step_bitcast(st: MachineState, ty: Seq<char>) -> Result<MachineState, ErrM> {
    if st.stack.len() == 0 {
        Err(ErrM::Malformed)
    } else {
        Ok(
            MachineState {
                stack: st.stack.drop_last().push(spec_bitcast(ty, st.stack.last())),
                ..st
            },
        )
    }
}

/// A load: consumes the base address, emits a read of the given width at
/// `base + off`, and pushes a fresh temporary bound to the read value.
pub open spec fn step_load(
    st: MachineState,
    prefix: Seq<char>,
    off: nat,
    suffix: Seq<char>,
) -> Result<MachineState, ErrM> {
    if st.stack.len() == 0 {
        Err(ErrM::Malformed)
    } else if st.tmps >= usize::MAX as nat {
        Err(ErrM::Malformed)
    } else {
        let dest = spec_tmp_name(st.tmps);
        Ok(
            MachineState {
                stack: st.stack.drop_last().push(dest),
                text: st.text + spec_load_stmt(dest, prefix, st.stack.last(), off, suffix),
                tmps: st.tmps + 1,
                ..st
            },
        )
    }
}

/// A store: consumes (value, base address) and emits a write of the given
/// width at `base + off`; nothing is pushed.
pub open spec fn step_store(
    st: MachineState,
    prefix: Seq<char>,
    off: nat,
    mid: Seq<char>,
    suffix: Seq<char>,
) -> Result<MachineState, ErrM> {
    if st.stack.len() < 2 {
        Err(ErrM::Malformed)
    } else {
        let value = st.stack[st.stack.len() - 2];
        let base = st.stack.last();
        Ok(
            MachineState {
                stack: st.stack.take(st.stack.len() as int - 2),
                text: st.text + spec_store_stmt(prefix, base, off, mid, value, suffix),
                ..st
            },
        )
    }
}

/// Pushing the n-th bound parameter.
pub open spec fn step_get_arg(params: Seq<Seq<char>>, st: MachineState, nth: nat) -> Result<
    MachineState,
    ErrM,
> {
    if nth < params.len() {
        Ok(MachineState { stack: st.stack.push(params[nth as int]), ..st })
    } else {
        Err(ErrM::Malformed)
    }
}

/// Lowering a string: consumes the string operand and pushes its pointer and
/// its byte length, in that order.
pub open spec fn step_string_lower(st: MachineState) -> Result<MachineState, ErrM> {
    if st.stack.len() == 0 {
        Err(ErrM::Malformed)
    } else {
        Ok(
            MachineState {
                stack: st.stack.drop_last().push(spec_string_ptr(st.stack.last())).push(
                    spec_string_len(st.stack.last()),
                ),
                ..st
            },
        )
    }
}

/// Allocating the return area: declares it; its address is pushed later,
/// each time a read or write needs it.
pub open spec fn step_ret_area(st: MachineState, size: nat, align: nat) -> Result<
    MachineState,
    ErrM,
> {
    Ok(
        MachineState {
            text: st.text + spec_ret_area_stmt(size, align),
            retptr: true,
            ..st
        },
    )
}

/// Forcing evaluation of the topmost operands: symbolic operands stay as
/// they are.
pub open spec fn step_flush(st: MachineState, amt: nat) -> Result<MachineState, ErrM> {
    if st.stack.len() < amt {
        Err(ErrM::Malformed)
    } else {
        Ok(st)
    }
}

/// Pushing the return area's address again, for a read-back.
pub open spec fn step_push_retptr(st: MachineState) -> Result<MachineState, ErrM> {
    if st.retptr {
        Ok(MachineState { stack: st.stack.push(spec_ret_area_ptr()), ..st })
    } else {
        Err(ErrM::Malformed)
    }
}

/// Calling the externally linked counterpart: consumes one operand per
/// parameter slot, positionally, and binds the sole result if there is one.
pub open spec fn step_call_wasm(
    st: MachineState,
    module: Seq<char>,
    name: Seq<char>,
    sig_params: Seq<WasmType>,
    sig_results: Seq<WasmType>,
) -> Result<MachineState, ErrM> {
    let n = sig_params.len();
    if sig_results.len() > 1 {
        Err(ErrM::NoResultConvention)
    } else if st.stack.len() < n {
        Err(ErrM::Malformed)
    } else {
        let bind = sig_results.len() == 1;
        let args = st.stack.subrange(st.stack.len() - n, st.stack.len() as int);
        let kept = st.stack.take(st.stack.len() - n);
        Ok(
            MachineState {
                stack: if bind {
                    kept.push("ret"@)
                } else {
                    kept
                },
                text: st.text + spec_call_wasm_stmt(bind, module, name, sig_params, sig_results, args),
                ..st
            },
        )
    }
}

/// Calling the user-supplied implementation under the scope path: consumes
/// one operand per declared parameter, positionally, and binds the result
/// exactly when the function declares one anonymous result.
pub open spec fn step_call_high(st: MachineState, path: Seq<Seq<char>>, func: Function) -> Result<
    MachineState,
    ErrM,
> {
    let named_nonempty = (match func.results {
        ResultShape::Named(ps) => ps@.len() > 0,
        ResultShape::Anon(_) => false,
    });
    let bind = (func.results matches ResultShape::Anon(_));
    let n = func.params@.len();
    if named_nonempty {
        Err(ErrM::NoResultConvention)
    } else if st.stack.len() < n {
        Err(ErrM::Malformed)
    } else {
        let args = st.stack.subrange(st.stack.len() - n, st.stack.len() as int);
        let kept = st.stack.take(st.stack.len() - n);
        Ok(
            MachineState {
                stack: if bind {
                    kept.push("ret"@)
                } else {
                    kept
                },
                text: st.text + spec_call_high_stmt(
                    bind,
                    path,
                    lower_camel_of(func.name@),
                    args,
                ),
                ..st
            },
        )
    }
}

/// Splitting an aggregate: consumes it and pushes one operand per element,
/// in declared order.
pub open spec fn step_tuple_lower(st: MachineState, arity: nat) -> Result<MachineState, ErrM> {
    if st.stack.len() == 0 {
        Err(ErrM::Malformed)
    } else {
        Ok(
            MachineState {
                stack: st.stack.drop_last() + spec_tuple_parts(st.stack.last(), arity),
                ..st
            },
        )
    }
}

/// Building an aggregate literal: consumes one operand per element and
/// pushes the literal built from them in order.
pub open spec fn step_tuple_lift(st: MachineState, arity: nat) -> Result<MachineState, ErrM> {
    if st.stack.len() < arity {
        Err(ErrM::Malformed)
    } else {
        let args = st.stack.subrange(st.stack.len() - arity, st.stack.len() as int);
        Ok(
            MachineState {
                stack: st.stack.take(st.stack.len() - arity).push(spec_tuple_lift(args)),
                ..st
            },
        )
    }
}

/// Returning: nothing for zero results, a return statement of the sole
/// operand for one; two or more returned operands have no calling
/// convention here.
pub open spec fn step_return(st: MachineState, amt: nat) -> Result<MachineState, ErrM> {
    if amt > 1 {
        Err(ErrM::NoResultConvention)
    } else if amt == 1 {
        if st.stack.len() == 0 {
            Err(ErrM::Malformed)
        } else {
            Ok(
                MachineState {
                    stack: st.stack.drop_last(),
                    text: st.text + spec_return_stmt(st.stack.last()),
                    rets: st.rets + 1,
                    ..st
                },
            )
        }
    } else {
        Ok(st)
    }
}

/// The effect of one instruction on the machine: the operand arities and
/// texts of the supported subset, or the failure that aborts the function.
pub open spec fn step(
    dir: DirM,
    params: Seq<Seq<char>>,
    st: MachineState,
    inst: Instruction,
) -> Result<MachineState, ErrM> {
    match inst {
        Instruction::GetArg { nth } => step_get_arg(params, st, nth as nat),
        Instruction::I32FromS32 => step_pass(st),
        Instruction::S32FromI32 => step_pass(st),
        Instruction::I64FromS64 => step_pass(st),
        Instruction::S64FromI64 => step_pass(st),
        Instruction::F32FromFloat32 => step_pass(st),
        Instruction::F64FromFloat64 => step_pass(st),
        Instruction::Float32FromF32 => step_pass(st),
        Instruction::Float64FromF64 => step_pass(st),
        Instruction::I32FromU8 => step_cast(st, "i32"@),
        Instruction::I32FromU16 => step_cast(st, "i32"@),
        Instruction::I32FromU32 => step_bitcast(st, "i32"@),
        Instruction::I32FromS8 => step_cast(st, "i32"@),
        Instruction::I32FromS16 => step_cast(st, "i32"@),
        Instruction::I32FromChar => step_cast(st, "i32"@),
        Instruction::I64FromU64 => step_bitcast(st, "i64"@),
        Instruction::S8FromI32 => step_cast(st, "i8"@),
        Instruction::U8FromI32 => step_cast(st, "u8"@),
        Instruction::S16FromI32 => step_cast(st, "i16"@),
        Instruction::U16FromI32 => step_cast(st, "u16"@),
        Instruction::U32FromI32 => step_bitcast(st, "u32"@),
        Instruction::CharFromI32 => step_cast(st, "u32"@),
        Instruction::U64FromI64 => step_bitcast(st, "u64"@),
        Instruction::StringLower => step_string_lower(st),
        Instruction::ReturnPointer { size, align } => step_ret_area(st, size as nat, align as nat),
        Instruction::PushReturnPointer => step_push_retptr(st),
        Instruction::CallWasm { name, sig } => match dir {
            DirM::Imp(module) => step_call_wasm(st, module, name@, sig.params@, sig.results@),
            DirM::Exp(_) => Err(ErrM::Malformed),
        },
        Instruction::CallInterface { func } => match dir {
            DirM::Exp(path) => step_call_high(st, path, func),
            DirM::Imp(_) => Err(ErrM::Malformed),
        },
        Instruction::I32Load { offset } => step_load(
            st,
            "@as(*const i32, @ptrFromInt("@,
            offset as nat,
            ")).*;\n"@,
        ),
        Instruction::I32Load8U { offset } => step_load(
            st,
            "@as(i32, @intCast(@as(*const u8, @ptrFromInt("@,
            offset as nat,
            ")).*));\n"@,
        ),
        Instruction::I64Load { offset } => step_load(
            st,
            "@as(*const i64, @ptrFromInt("@,
            offset as nat,
            ")).*;\n"@,
        ),
        Instruction::I32Store { offset } => step_store(
            st,
            "@as(*i32, @ptrFromInt("@,
            offset as nat,
            ")).* = "@,
            ";\n"@,
        ),
        Instruction::I32Store8 { offset } => step_store(
            st,
            "@as(*u8, @ptrFromInt("@,
            offset as nat,
            ")).* = @as(u8, @intCast("@,
            "));\n"@,
        ),
        Instruction::I32Store16 { offset } => step_store(
            st,
            "@as(*u16, @ptrFromInt("@,
            offset as nat,
            ")).* = @as(u16, @intCast("@,
            "));\n"@,
        ),
        Instruction::I64Store { offset } => step_store(
            st,
            "@as(*i64, @ptrFromInt("@,
            offset as nat,
            ")).* = "@,
            ";\n"@,
        ),
        Instruction::TupleLower { arity } => step_tuple_lower(st, arity as nat),
        Instruction::TupleLift { arity } => step_tuple_lift(st, arity as nat),
        Instruction::Flush { amt } => step_flush(st, amt as nat),
        Instruction::Return { amt } => step_return(st, amt as nat),
        Instruction::Unsupported { tag } => Err(ErrM::UnsupportedInst(tag@)),
    }
}

/// The executable emitter: the operand stack, the emitted text, and the
/// counters that `MachineState` models.
pub struct Emitter {
    stack: Vec<String>,
    text: String,
    tmps: usize,
    rets: Ghost<nat>,
    retptr: bool,
}

impl Emitter {
    /// The spec-level state of this emitter.
    pub closed spec fn model(&self) -> MachineState {
        MachineState {
            stack: self.stack.deep_view(),
            text: self.text@,
            rets: self.rets@,
            tmps: self.tmps as nat,
            retptr: self.retptr,
        }
    }

    /// A fresh emitter for one function body.
    pub fn new() -> (r: Emitter)
        ensures
            r.model() == MachineState::init(),
    {
        let e = Emitter {
            stack: Vec::new(),
            text: String::new(),
            tmps: 0,
            rets: Ghost(0nat),
            retptr: false,
        };
        proof {
            assert(e.stack.deep_view() =~= Seq::<Seq<char>>::empty());
        }
        e
    }

    /// The emitted text.
    pub fn into_text(self) -> (r: String)
        ensures
            r@ == self.model().text,
    {
        self.text
    }

    /// The number of operands now on the stack.
    pub fn stack_len(&self) -> (r: usize)
        ensures
            r == self.model().stack.len(),
    {
        self.stack.len()
    }

    /// Pops the topmost `n` operands, returned in stack order, oldest first.
    fn pop_n(&mut self, n: usize) -> (r: Option<Vec<String>>)
        ensures
            (match r {
                Some(ops) => {
                    &&& old(self).model().stack.len() >= n
                    &&& ops.deep_view() == old(self).model().stack.subrange(
                        old(self).model().stack.len() - n,
                        old(self).model().stack.len() as int,
                    )
                    &&& final(self).model() == (MachineState {
                        stack: old(self).model().stack.take(old(self).model().stack.len() - n),
                        ..old(self).model()
                    })
                },
                None => old(self).model().stack.len() < n && final(self).model() == old(
                    self,
                ).model(),
            }),
    {
        if self.stack.len() < n {
            return None;
        }
        let ghost dv = self.stack.deep_view();
        let start = self.stack.len() - n;
        let mut ops: Vec<String> = Vec::new();
        let mut j: usize = start;
        proof {
            assert(ops.deep_view() =~= dv.subrange(start as int, start as int));
        }
        while j < self.stack.len()
            invariant
                start <= j <= self.stack.len(),
                self.stack.len() == dv.len(),
                dv == self.stack.deep_view(),
                ops.deep_view() == dv.subrange(start as int, j as int),
            decreases self.stack.len() - j,
        {
            let ghost pre = ops.deep_view();
            ops.push(self.stack[j].clone());
            proof {
                assert(ops.deep_view() =~= pre.push(dv[j as int]));
                assert(dv.subrange(start as int, j as int).push(dv[j as int]) =~= dv.subrange(
                    start as int,
                    j as int + 1,
                ));
            }
            j = j + 1;
        }
        self.stack.truncate(start);
        proof {
            assert(self.stack.deep_view() =~= dv.take(start as int));
        }
        Some(ops)
    }

    /// A same-width reinterpretation.
    fn do_pass(&mut self) -> (r: Result<(), GenError>)
        ensures
            (match r {
                Ok(_) => step_pass(old(self).model()) == Ok::<MachineState, ErrM>(
                    final(self).model(),
                ),
                Err(e) => step_pass(old(self).model()) == Err::<MachineState, ErrM>(e.model()),
            }),
    {
        if self.stack.len() == 0 {
            Err(GenError::MalformedSequence)
        } else {
            Ok(())
        }
    }

    /// A width conversion to the Zig type `ty`.
    fn do_cast(&mut self, ty: &'static str) -> (r: Result<(), GenError>)
        ensures
            (match r {
                Ok(_) => step_cast(old(self).model(), ty@) == Ok::<MachineState, ErrM>(
                    final(self).model(),
                ),
                Err(e) => step_cast(old(self).model(), ty@) == Err::<MachineState, ErrM>(
                    e.model(),
                ),
            }),
    {
        if self.stack.len() == 0 {
            return Err(GenError::MalformedSequence);
        }
        let x = self.stack.pop().unwrap();
        let mut s = String::from_str("@as(");
        s.append(ty);
        s.append(", @intCast(");
        s.append(x.as_str());
        s.append("))");
        proof {
            assert(s@ =~= spec_cast(ty@, old(self).model().stack.last()));
        }
        self.stack.push(s);
        proof {
            assert(self.stack.deep_view() =~= old(self).model().stack.drop_last().push(
                spec_cast(ty@, old(self).model().stack.last()),
            ));
        }
        Ok(())
    }

    /// A same-width reinterpretation of the topmost operand as `ty`.
    fn do_bitcast(&mut self, ty: &'static str) -> (r: Result<(), GenError>)
        ensures
            (match r {
                Ok(_) => step_bitcast(old(self).model(), ty@) == Ok::<MachineState, ErrM>(
                    final(self).model(),
                ),
                Err(e) => step_bitcast(old(self).model(), ty@) == Err::<MachineState, ErrM>(
                    e.model(),
                ),
            }),
    {
        if self.stack.len() == 0 {
            return Err(GenError::MalformedSequence);
        }
        let x = self.stack.pop().unwrap();
        let mut s = String::from_str("@as(");
        s.append(ty);
        s.append(", @bitCast(");
        s.append(x.as_str());
        s.append("))");
        proof {
            assert(s@ =~= spec_bitcast(ty@, old(self).model().stack.last()));
        }
        self.stack.push(s);
        proof {
            assert(self.stack.deep_view() =~= old(self).model().stack.drop_last().push(
                spec_bitcast(ty@, old(self).model().stack.last()),
            ));
        }
        Ok(())
    }

    /// A load of the width that `prefix` and `suffix` cast to.
    fn do_load(&mut self, prefix: &'static str, offset: u32, suffix: &'static str) -> (r: Result<
        (),
        GenError,
    >)
        ensures
            (match r {
                Ok(_) => step_load(old(self).model(), prefix@, offset as nat, suffix@)
                    == Ok::<MachineState, ErrM>(final(self).model()),
                Err(e) => step_load(old(self).model(), prefix@, offset as nat, suffix@)
                    == Err::<MachineState, ErrM>(e.model()),
            }),
    {
        if self.stack.len() == 0 {
            return Err(GenError::MalformedSequence);
        }
        if self.tmps == usize::MAX {
            return Err(GenError::MalformedSequence);
        }
        let base = self.stack.pop().unwrap();
        let mut dest = String::from_str("tmp");
        let num = u64_dec(self.tmps as u64);
        dest.append(num.as_str());
        proof {
            assert(dest@ =~= spec_tmp_name(old(self).model().tmps));
        }
        self.text.append("const ");
        self.text.append(dest.as_str());
        self.text.append(" = ");
        self.text.append(prefix);
        self.text.append(base.as_str());
        self.text.append(" + ");
        let off = u64_dec(offset as u64);
        self.text.append(off.as_str());
        self.text.append(suffix);
        self.stack.push(dest);
        self.tmps = self.tmps + 1;
        proof {
            let st0 = old(self).model();
            assert(self.stack.deep_view() =~= st0.stack.drop_last().push(
                spec_tmp_name(st0.tmps),
            ));
            assert(self.text@ =~= st0.text + spec_load_stmt(
                spec_tmp_name(st0.tmps),
                prefix@,
                st0.stack.last(),
                offset as nat,
                suffix@,
            ));
        }
        Ok(())
    }

    /// A store of the width that `prefix`, `mid` and `suffix` cast to.
    fn do_store(
        &mut self,
        prefix: &'static str,
        offset: u32,
        mid: &'static str,
        suffix: &'static str,
    ) -> (r: Result<(), GenError>)
        ensures
            (match r {
                Ok(_) => step_store(old(self).model(), prefix@, offset as nat, mid@, suffix@)
                    == Ok::<MachineState, ErrM>(final(self).model()),
                Err(e) => step_store(old(self).model(), prefix@, offset as nat, mid@, suffix@)
                    == Err::<MachineState, ErrM>(e.model()),
            }),
    {
        if self.stack.len() < 2 {
            return Err(GenError::MalformedSequence);
        }
        let base = self.stack.pop().unwrap();
        let value = self.stack.pop().unwrap();
        self.text.append(prefix);
        self.text.append(base.as_str());
        self.text.append(" + ");
        let off = u64_dec(offset as u64);
        self.text.append(off.as_str());
        self.text.append(mid);
        self.text.append(value.as_str());
        self.text.append(suffix);
        proof {
            let st0 = old(self).model();
            assert(self.stack.deep_view() =~= st0.stack.take(st0.stack.len() as int - 2));
            assert(self.text@ =~= st0.text + spec_store_stmt(
                prefix@,
                st0.stack.last(),
                offset as nat,
                mid@,
                st0.stack[st0.stack.len() - 2],
                suffix@,
            ));
        }
        Ok(())
    }
}

impl Emitter {
    /// Pushes the n-th bound parameter.
    fn do_get_arg(&mut self, params: &Vec<String>, nth: usize) -> (r: Result<(), GenError>)
        ensures
            (match r {
                Ok(_) => step_get_arg(params.deep_view(), old(self).model(), nth as nat)
                    == Ok::<MachineState, ErrM>(final(self).model()),
                Err(e) => step_get_arg(params.deep_view(), old(self).model(), nth as nat)
                    == Err::<MachineState, ErrM>(e.model()),
            }),
    {
        if nth < params.len() {
            let op = params[nth].clone();
            self.stack.push(op);
            proof {
                assert(self.stack.deep_view() =~= old(self).model().stack.push(
                    params.deep_view()[nth as int],
                ));
            }
            Ok(())
        } else {
            Err(GenError::MalformedSequence)
        }
    }

    /// Lowers a string operand to its pointer and byte length.
    fn do_string_lower(&mut self) -> (r: Result<(), GenError>)
        ensures
            (match r {
                Ok(_) => step_string_lower(old(self).model()) == Ok::<MachineState, ErrM>(
                    final(self).model(),
                ),
                Err(e) => step_string_lower(old(self).model()) == Err::<MachineState, ErrM>(
                    e.model(),
                ),
            }),
    {
        if self.stack.len() == 0 {
            return Err(GenError::MalformedSequence);
        }
        let s = self.stack.pop().unwrap();
        let mut ptr = String::from_str("@as(i32, @intCast(@intFromPtr(");
        ptr.append(s.as_str());
        ptr.append(".ptr)))");
        let mut len_op = String::from_str("@as(i32, @intCast(");
        len_op.append(s.as_str());
        len_op.append(".len))");
        proof {
            assert(ptr@ =~= spec_string_ptr(old(self).model().stack.last()));
            assert(len_op@ =~= spec_string_len(old(self).model().stack.last()));
        }
        self.stack.push(ptr);
        self.stack.push(len_op);
        proof {
            let st0 = old(self).model();
            assert(self.stack.deep_view() =~= st0.stack.drop_last().push(
                spec_string_ptr(st0.stack.last()),
            ).push(spec_string_len(st0.stack.last())));
        }
        Ok(())
    }

    /// Declares the return area and pushes its address.
    fn do_ret_area(&mut self, size: u32, align: u32) -> (r: Result<(), GenError>)
        ensures
            (match r {
                Ok(_) => step_ret_area(old(self).model(), size as nat, align as nat)
                    == Ok::<MachineState, ErrM>(final(self).model()),
                Err(e) => step_ret_area(old(self).model(), size as nat, align as nat)
                    == Err::<MachineState, ErrM>(e.model()),
            }),
    {
        self.text.append("var ret_area: [");
        let size_dec = u64_dec(size as u64);
        self.text.append(size_dec.as_str());
        self.text.append("]u8 align(");
        let align_dec = u64_dec(align as u64);
        self.text.append(align_dec.as_str());
        self.text.append(") = undefined;\n");
        self.retptr = true;
        proof {
            let st0 = old(self).model();
            assert(self.text@ =~= st0.text + spec_ret_area_stmt(size as nat, align as nat));
        }
        Ok(())
    }

    /// Pushes the return area's address again.
    fn do_push_retptr(&mut self) -> (r: Result<(), GenError>)
        ensures
            (match r {
                Ok(_) => step_push_retptr(old(self).model()) == Ok::<MachineState, ErrM>(
                    final(self).model(),
                ),
                Err(e) => step_push_retptr(old(self).model()) == Err::<MachineState, ErrM>(
                    e.model(),
                ),
            }),
    {
        if self.retptr {
            self.stack.push(String::from_str("@intFromPtr(&ret_area)"));
            proof {
                assert(self.stack.deep_view() =~= old(self).model().stack.push(
                    spec_ret_area_ptr(),
                ));
            }
            Ok(())
        } else {
            Err(GenError::MalformedSequence)
        }
    }

    /// Leaves the topmost operands as they are.
    fn do_flush(&mut self, amt: usize) -> (r: Result<(), GenError>)
        ensures
            (match r {
                Ok(_) => step_flush(old(self).model(), amt as nat) == Ok::<MachineState, ErrM>(
                    final(self).model(),
                ),
                Err(e) => step_flush(old(self).model(), amt as nat) == Err::<MachineState, ErrM>(
                    e.model(),
                ),
            }),
    {
        if self.stack.len() < amt {
            Err(GenError::MalformedSequence)
        } else {
            Ok(())
        }
    }

    /// Emits the call to the externally linked counterpart.
    fn do_call_wasm(&mut self, module: &String, name: &String, sig: &WasmSignature) -> (r: Result<
        (),
        GenError,
    >)
        ensures
            (match r {
                Ok(_) => step_call_wasm(
                    old(self).model(),
                    module@,
                    name@,
                    sig.params@,
                    sig.results@,
                ) == Ok::<MachineState, ErrM>(final(self).model()),
                Err(e) => step_call_wasm(
                    old(self).model(),
                    module@,
                    name@,
                    sig.params@,
                    sig.results@,
                ) == Err::<MachineState, ErrM>(e.model()),
            }),
    {
        if sig.results.len() > 1 {
            return Err(GenError::MissingResultConvention);
        }
        let ops = match self.pop_n(sig.params.len()) {
            Some(ops) => ops,
            None => {
                return Err(GenError::MalformedSequence);
            },
        };
        let bind = sig.results.len() == 1;
        let ext_stmt = get_extern_statement(sig, module.as_str(), name.as_str());
        let joined = join(&ops, ", ");
        if bind {
            self.text.append("const ret = ");
        }
        self.text.append("(struct {\n");
        self.text.append(ext_stmt.as_str());
        self.text.append("\n}).@\"");
        self.text.append(name.as_str());
        self.text.append("\"(");
        self.text.append(joined.as_str());
        self.text.append(");\n");
        if bind {
            self.stack.push(String::from_str("ret"));
        }
        proof {
            let st0 = old(self).model();
            let n = sig.params@.len();
            let kept = st0.stack.take(st0.stack.len() - n);
            if bind {
                assert(self.stack.deep_view() =~= kept.push("ret"@));
            } else {
                assert(self.stack.deep_view() =~= kept);
            }
            assert(self.text@ =~= st0.text + spec_call_wasm_stmt(
                bind,
                module@,
                name@,
                sig.params@,
                sig.results@,
                st0.stack.subrange(st0.stack.len() - n, st0.stack.len() as int),
            ));
        }
        Ok(())
    }

    /// Emits the call to the user-supplied implementation under the scope
    /// path.
    fn do_call_interface(&mut self, path: &Vec<String>, func: &Function) -> (r: Result<
        (),
        GenError,
    >)
        ensures
            (match r {
                Ok(_) => step_call_high(old(self).model(), path.deep_view(), *func)
                    == Ok::<MachineState, ErrM>(final(self).model()),
                Err(e) => step_call_high(old(self).model(), path.deep_view(), *func)
                    == Err::<MachineState, ErrM>(e.model()),
            }),
    {
        let bind = match &func.results {
            ResultShape::Named(ps) => {
                if ps.len() > 0 {
                    return Err(GenError::MissingResultConvention);
                }
                false
            },
            ResultShape::Anon(_) => true,
        };
        let ops = match self.pop_n(func.params.len()) {
            Some(ops) => ops,
            None => {
                return Err(GenError::MalformedSequence);
            },
        };
        let camel = to_lower_camel(func.name.as_str());
        let joined = join(&ops, ", ");
        if bind {
            self.text.append("const ret = ");
        }
        self.text.append("__user_exports.");
        if path.len() > 0 {
            let path_joined = join(path, ".");
            self.text.append(path_joined.as_str());
            self.text.append(".");
        }
        self.text.append(camel.as_str());
        self.text.append("(");
        self.text.append(joined.as_str());
        self.text.append(");\n");
        if bind {
            self.stack.push(String::from_str("ret"));
        }
        proof {
            let st0 = old(self).model();
            let n = func.params@.len();
            let kept = st0.stack.take(st0.stack.len() - n);
            if bind {
                assert(self.stack.deep_view() =~= kept.push("ret"@));
            } else {
                assert(self.stack.deep_view() =~= kept);
            }
            assert(self.text@ =~= st0.text + spec_call_high_stmt(
                bind,
                path.deep_view(),
                lower_camel_of(func.name@),
                st0.stack.subrange(st0.stack.len() - n, st0.stack.len() as int),
            ));
        }
        Ok(())
    }

    /// Splits an aggregate into one operand per element.
    #[verifier::loop_isolation(false)]
    fn do_tuple_lower(&mut self, arity: usize) -> (r: Result<(), GenError>)
        ensures
            (match r {
                Ok(_) => step_tuple_lower(old(self).model(), arity as nat)
                    == Ok::<MachineState, ErrM>(final(self).model()),
                Err(e) => step_tuple_lower(old(self).model(), arity as nat)
                    == Err::<MachineState, ErrM>(e.model()),
            }),
    {
        if self.stack.len() == 0 {
            return Err(GenError::MalformedSequence);
        }
        let x = self.stack.pop().unwrap();
        let ghost xv = x@;
        let ghost base = self.stack.deep_view();
        let mut k: usize = 0;
        proof {
            assert(base + spec_tuple_parts(xv, 0) =~= base);
        }
        while k < arity
            invariant
                k <= arity,
                xv == x@,
                self.stack.deep_view() == base + spec_tuple_parts(xv, k as nat),
                self.text@ == old(self).text@,
                self.tmps == old(self).tmps,
                self.rets@ == old(self).rets@,
                self.retptr == old(self).retptr,
            decreases arity - k,
        {
            let ghost pre = self.stack.deep_view();
            let mut part = x.clone();
            let k_dec = u64_dec(k as u64);
            part.append(k_dec.as_str());
            let ghost pv = part@;
            self.stack.push(part);
            proof {
                assert(pv == xv + spec_dec(k as nat));
                assert(self.stack.deep_view() =~= pre.push(pv));
                assert(pre.push(pv) =~= base + spec_tuple_parts(xv, k as nat + 1));
            }
            k = k + 1;
        }
        proof {
            let st0 = old(self).model();
            assert(base =~= st0.stack.drop_last());
            assert(self.stack.deep_view() =~= st0.stack.drop_last() + spec_tuple_parts(
                st0.stack.last(),
                arity as nat,
            ));
        }
        Ok(())
    }

    /// Builds an aggregate literal from one operand per element.
    fn do_tuple_lift(&mut self, arity: usize) -> (r: Result<(), GenError>)
        ensures
            (match r {
                Ok(_) => step_tuple_lift(old(self).model(), arity as nat)
                    == Ok::<MachineState, ErrM>(final(self).model()),
                Err(e) => step_tuple_lift(old(self).model(), arity as nat)
                    == Err::<MachineState, ErrM>(e.model()),
            }),
    {
        let ops = match self.pop_n(arity) {
            Some(ops) => ops,
            None => {
                return Err(GenError::MalformedSequence);
            },
        };
        let joined = join(&ops, ", ");
        let mut agg = String::from_str(".{ ");
        agg.append(joined.as_str());
        agg.append(" }");
        self.stack.push(agg);
        proof {
            let st0 = old(self).model();
            let n = arity as int;
            assert(self.stack.deep_view() =~= st0.stack.take(st0.stack.len() - n).push(
                spec_tuple_lift(st0.stack.subrange(st0.stack.len() - n, st0.stack.len() as int)),
            ));
        }
        Ok(())
    }

    /// Emits the return statement, if one is owed.
    fn do_return(&mut self, amt: usize) -> (r: Result<(), GenError>)
        ensures
            (match r {
                Ok(_) => step_return(old(self).model(), amt as nat) == Ok::<MachineState, ErrM>(
                    final(self).model(),
                ),
                Err(e) => step_return(old(self).model(), amt as nat) == Err::<MachineState, ErrM>(
                    e.model(),
                ),
            }),
    {
        if amt > 1 {
            Err(GenError::MissingResultConvention)
        } else if amt == 1 {
            if self.stack.len() == 0 {
                return Err(GenError::MalformedSequence);
            }
            let op = self.stack.pop().unwrap();
            self.text.append("return ");
            self.text.append(op.as_str());
            self.text.append(";\n");
            self.rets = Ghost(self.rets@ + 1);
            proof {
                let st0 = old(self).model();
                assert(self.stack.deep_view() =~= st0.stack.drop_last());
                assert(self.text@ =~= st0.text + spec_return_stmt(st0.stack.last()));
            }
            Ok(())
        } else {
            Ok(())
        }
    }

    /// Performs one instruction: the operand arity and effect that `step`
    /// states, or the failure that `step` states, in which case the emitter
    /// is abandoned.
    pub fn emit_inst(&mut self, dir: &Direction, params: &Vec<String>, inst: &Instruction) -> (r:
        Result<(), GenError>)
        ensures
            (match r {
                Ok(_) => step(dir_model(*dir), params.deep_view(), old(self).model(), *inst)
                    == Ok::<MachineState, ErrM>(final(self).model()),
                Err(e) => step(dir_model(*dir), params.deep_view(), old(self).model(), *inst)
                    == Err::<MachineState, ErrM>(e.model()),
            }),
    {
        match inst {
            Instruction::GetArg { nth } => self.do_get_arg(params, *nth),
            Instruction::I32FromS32 => self.do_pass(),
            Instruction::S32FromI32 => self.do_pass(),
            Instruction::I64FromS64 => self.do_pass(),
            Instruction::S64FromI64 => self.do_pass(),
            Instruction::F32FromFloat32 => self.do_pass(),
            Instruction::F64FromFloat64 => self.do_pass(),
            Instruction::Float32FromF32 => self.do_pass(),
            Instruction::Float64FromF64 => self.do_pass(),
            Instruction::I32FromU8 => self.do_cast("i32"),
            Instruction::I32FromU16 => self.do_cast("i32"),
            Instruction::I32FromU32 => self.do_bitcast("i32"),
            Instruction::I32FromS8 => self.do_cast("i32"),
            Instruction::I32FromS16 => self.do_cast("i32"),
            Instruction::I32FromChar => self.do_cast("i32"),
            Instruction::I64FromU64 => self.do_bitcast("i64"),
            Instruction::S8FromI32 => self.do_cast("i8"),
            Instruction::U8FromI32 => self.do_cast("u8"),
            Instruction::S16FromI32 => self.do_cast("i16"),
            Instruction::U16FromI32 => self.do_cast("u16"),
            Instruction::U32FromI32 => self.do_bitcast("u32"),
            Instruction::CharFromI32 => self.do_cast("u32"),
            Instruction::U64FromI64 => self.do_bitcast("u64"),
            Instruction::StringLower => self.do_string_lower(),
            Instruction::ReturnPointer { size, align } => self.do_ret_area(*size, *align),
            Instruction::PushReturnPointer => self.do_push_retptr(),
            Instruction::CallWasm { name, sig } => match dir {
                Direction::Import { module } => self.do_call_wasm(module, name, sig),
                Direction::Export { .. } => Err(GenError::MalformedSequence),
            },
            Instruction::CallInterface { func } => match dir {
                Direction::Export { path } => self.do_call_interface(path, func),
                Direction::Import { .. } => Err(GenError::MalformedSequence),
            },
            Instruction::I32Load { offset } => self.do_load(
                "@as(*const i32, @ptrFromInt(",
                *offset,
                ")).*;\n",
            ),
            Instruction::I32Load8U { offset } => self.do_load(
                "@as(i32, @intCast(@as(*const u8, @ptrFromInt(",
                *offset,
                ")).*));\n",
            ),
            Instruction::I64Load { offset } => self.do_load(
                "@as(*const i64, @ptrFromInt(",
                *offset,
                ")).*;\n",
            ),
            Instruction::I32Store { offset } => self.do_store(
                "@as(*i32, @ptrFromInt(",
                *offset,
                ")).* = ",
                ";\n",
            ),
            Instruction::I32Store8 { offset } => self.do_store(
                "@as(*u8, @ptrFromInt(",
                *offset,
                ")).* = @as(u8, @intCast(",
                "));\n",
            ),
            Instruction::I32Store16 { offset } => self.do_store(
                "@as(*u16, @ptrFromInt(",
                *offset,
                ")).* = @as(u16, @intCast(",
                "));\n",
            ),
            Instruction::I64Store { offset } => self.do_store(
                "@as(*i64, @ptrFromInt(",
                *offset,
                ")).* = ",
                ";\n",
            ),
            Instruction::TupleLower { arity } => self.do_tuple_lower(*arity),
            Instruction::TupleLift { arity } => self.do_tuple_lift(*arity),
            Instruction::Flush { amt } => self.do_flush(*amt),
            Instruction::Return { amt } => self.do_return(*amt),
            Instruction::Unsupported { tag } => Err(GenError::UnsupportedInstruction(tag.clone())),
        }
    }

    /// Performs a whole instruction sequence, stopping at the first failure,
    /// as `run` states.
    pub fn emit_seq(&mut self, dir: &Direction, params: &Vec<String>, insts: &Vec<Instruction>)
        -> (r: Result<(), GenError>)
        ensures
            (match r {
                Ok(_) => run(dir_model(*dir), params.deep_view(), old(self).model(), insts@)
                    == Ok::<MachineState, ErrM>(final(self).model()),
                Err(e) => run(dir_model(*dir), params.deep_view(), old(self).model(), insts@)
                    == Err::<MachineState, ErrM>(e.model()),
            }),
    {
        let ghost st0 = self.model();
        let mut i: usize = 0;
        proof {
            assert(insts@.take(0) =~= Seq::<Instruction>::empty());
        }
        while i < insts.len()
            invariant
                i <= insts@.len(),
                st0 == old(self).model(),
                run(dir_model(*dir), params.deep_view(), st0, insts@.take(i as int)) == Ok::<
                    MachineState,
                    ErrM,
                >(self.model()),
            decreases insts@.len() - i,
        {
            proof {
                assert(insts@.take(i as int + 1).drop_last() =~= insts@.take(i as int));
                assert(insts@.take(i as int + 1).last() == insts@[i as int]);
            }
            match self.emit_inst(dir, params, &insts[i]) {
                Ok(_) => {},
                Err(e) => {
                    proof {
                        lemma_run_err(dir_model(*dir), params.deep_view(), st0, insts@, i as int + 1);
                    }
                    return Err(e);
                },
            }
            i = i + 1;
        }
        proof {
            assert(insts@.take(insts@.len() as int) =~= insts@);
        }
        Ok(())
    }
}

/// Once a prefix of the sequence has failed, the whole sequence fails the
/// same way.
proof fn lemma_run_err(
    dir: DirM,
    params: Seq<Seq<char>>,
    st: MachineState,
    insts: Seq<Instruction>,
    i: int,
)
    requires
        0 <= i <= insts.len(),
        run(dir, params, st, insts.take(i)) is Err,
    ensures
        run(dir, params, st, insts) == run(dir, params, st, insts.take(i)),
    decreases insts.len() - i,
{
    if i < insts.len() {
        assert(insts.take(i + 1).drop_last() =~= insts.take(i));
        lemma_run_err(dir, params, st, insts, i + 1);
    } else {
        assert(insts.take(i) =~= insts);
    }
}

/// The declaration of the externally linked low-level counterpart of a
/// function, bound to `library_name`.
pub fn get_extern_statement(sig: &WasmSignature, library_name: &str, func_name: &str) -> (r:
    String)
    requires
        sig.results@.len() <= 1,
    ensures
        r@ == spec_extern_statement(library_name@, func_name@, sig.params@, sig.results@),
{
    let mut tys: Vec<String> = Vec::new();
    let mut i: usize = 0;
    proof {
        assert(tys.deep_view() =~= spec_wasm_spellings(sig.params@.take(0)));
    }
    while i < sig.params.len()
        invariant
            i <= sig.params@.len(),
            tys.deep_view() == spec_wasm_spellings(sig.params@.take(i as int)),
        decreases sig.params@.len() - i,
    {
        let ghost pre = tys.deep_view();
        tys.push(String::from_str(wasm_type_to_zig_type(sig.params[i])));
        proof {
            assert(tys.deep_view() =~= pre.push(spec_wasm_spelling(sig.params@[i as int])));
            assert(spec_wasm_spellings(sig.params@.take(i as int + 1)) =~= spec_wasm_spellings(
                sig.params@.take(i as int),
            ).push(spec_wasm_spelling(sig.params@[i as int])));
        }
        i = i + 1;
    }
    proof {
        assert(sig.params@.take(sig.params@.len() as int) =~= sig.params@);
    }
    let mut out = String::from_str("extern \"");
    out.append(library_name);
    out.append("\" fn @\"");
    out.append(func_name);
    out.append("\"(");
    let joined = join(&tys, ", ");
    out.append(joined.as_str());
    out.append(") ");
    if sig.results.len() == 0 {
        out.append("void");
    } else {
        out.append(wasm_type_to_zig_type(sig.results[0]));
    }
    out.append(";");
    proof {
        assert(out@ =~= spec_extern_statement(
            library_name@,
            func_name@,
            sig.params@,
            sig.results@,
        ));
    }
    out
}

/// Folds `step` over a whole instruction sequence, stopping at the first
/// failure.
pub open spec fn run(
    dir: DirM,
    params: Seq<Seq<char>>,
    st: MachineState,
    insts: Seq<Instruction>,
) -> Result<MachineState, ErrM>
    decreases insts.len(),
{
    if insts.len() == 0 {
        Ok(st)
    } else {
        match run(dir, params, st, insts.drop_last()) {
            Err(e) => Err(e),
            Ok(m) => step(dir, params, m, insts.last()),
        }
    }
}


/// String lowering consumes exactly one operand and pushes exactly two, the
/// pointer expression first and the byte-length expression second; nothing
/// below the consumed operand moves, and no statement is emitted.
pub proof fn lemma_string_lower_shape(st: MachineState)
    requires
        st.stack.len() >= 1,
    ensures
        (match step_string_lower(st) {
            Ok(m) => {
                &&& m.stack.len() == st.stack.len() + 1
                &&& m.stack.take(st.stack.len() - 1) == st.stack.drop_last()
                &&& m.stack[st.stack.len() - 1] == spec_string_ptr(st.stack.last())
                &&& m.stack[st.stack.len() as int] == spec_string_len(st.stack.last())
                &&& m.text == st.text
            },
            Err(_) => false,
        }),
{
    match step_string_lower(st) {
        Ok(m) => {
            assert(m.stack.take(st.stack.len() - 1) =~= st.stack.drop_last());
        },
        Err(_) => {},
    }
}

/// Tuple round trip: lowering an aggregate pushes one operand per element in
/// declared order, and lifting consumes exactly those operands and rebuilds
/// the aggregate literal from them in the same order; the rest of the stack
/// is untouched and no statement is emitted.
pub proof fn lemma_tuple_round_trip(st: MachineState, n: nat)
    requires
        st.stack.len() >= 1,
    ensures
        (match step_tuple_lower(st, n) {
            Ok(m1) => match step_tuple_lift(m1, n) {
                Ok(m2) => {
                    &&& m2.stack == st.stack.drop_last().push(
                        spec_tuple_lift(spec_tuple_parts(st.stack.last(), n)),
                    )
                    &&& spec_tuple_parts(st.stack.last(), n).len() == n
                    &&& (forall|i: int|
                        0 <= i < n ==> spec_tuple_parts(st.stack.last(), n)[i] == st.stack.last()
                            + spec_dec(i as nat))
                    &&& m2.text == st.text
                },
                Err(_) => false,
            },
            Err(_) => false,
        }),
{
    let x = st.stack.last();
    match step_tuple_lower(st, n) {
        Ok(m1) => {
            assert(m1.stack =~= st.stack.drop_last() + spec_tuple_parts(x, n));
            assert(m1.stack.len() == st.stack.len() - 1 + n);
            match step_tuple_lift(m1, n) {
                Ok(m2) => {
                    assert(m1.stack.subrange(m1.stack.len() - n, m1.stack.len() as int)
                        =~= spec_tuple_parts(x, n));
                    assert(m1.stack.take(m1.stack.len() - n) =~= st.stack.drop_last());
                    assert(m2.stack =~= st.stack.drop_last().push(
                        spec_tuple_lift(spec_tuple_parts(x, n)),
                    ));
                },
                Err(_) => {},
            }
        },
        Err(_) => {},
    }
}

/// The count of `return(1)` instructions in a sequence.
pub open spec fn count_ret1(insts: Seq<Instruction>) -> nat
    decreases insts.len(),
{
    if insts.len() == 0 {
        0
    } else {
        count_ret1(insts.drop_last()) + (match insts.last() {
            Instruction::Return { amt } => if amt == 1 {
                1nat
            } else {
                0nat
            },
            _ => 0nat,
        })
    }
}

proof fn lemma_step_rets(dir: DirM, params: Seq<Seq<char>>, st: MachineState, inst: Instruction)
    ensures
        (match step(dir, params, st, inst) {
            Ok(m) => m.rets == st.rets + (match inst {
                Instruction::Return { amt } => if amt == 1 {
                    1nat
                } else {
                    0nat
                },
                _ => 0nat,
            }),
            Err(_) => true,
        }),
{
}

/// Return statements are emitted exactly by `return(1)`: a run that
/// succeeds emits one return statement per `return(1)` instruction of its
/// sequence and none otherwise, so a zero-result function body holds no
/// return statement and a one-result body exactly one.
pub proof fn lemma_return_count(
    dir: DirM,
    params: Seq<Seq<char>>,
    st: MachineState,
    insts: Seq<Instruction>,
)
    ensures
        (match run(dir, params, st, insts) {
            Ok(m) => m.rets == st.rets + count_ret1(insts),
            Err(_) => true,
        }),
    decreases insts.len(),
{
    if insts.len() > 0 {
        lemma_return_count(dir, params, st, insts.drop_last());
        match run(dir, params, st, insts.drop_last()) {
            Ok(m) => {
                lemma_step_rets(dir, params, m, insts.last());
            },
            Err(_) => {},
        }
    }
}

/// The return statement of a one-result function returns the operand that
/// ends on top of the stack, and consumes it.
pub proof fn lemma_return_references_top(st: MachineState)
    requires
        st.stack.len() >= 1,
    ensures
        step_return(st, 1) == Ok::<MachineState, ErrM>(
            MachineState {
                stack: st.stack.drop_last(),
                text: st.text + spec_return_stmt(st.stack.last()),
                rets: st.rets + 1,
                ..st
            },
        ),
{
}

/// Load offset arithmetic: the emitted read statement spells the access as
/// `base + offset` textually, inside the width-correct cast that `prefix`
/// and `suffix` form.
pub proof fn lemma_load_access_text(
    st: MachineState,
    prefix: Seq<char>,
    off: nat,
    suffix: Seq<char>,
)
    requires
        st.stack.len() >= 1,
        st.tmps < usize::MAX as nat,
    ensures
        (match step_load(st, prefix, off, suffix) {
            Ok(m) => m.text == st.text + ("const "@ + spec_tmp_name(st.tmps) + " = "@ + prefix + (
            st.stack.last() + " + "@ + spec_dec(off)) + suffix),
            Err(_) => false,
        }),
{
    match step_load(st, prefix, off, suffix) {
        Ok(m) => {
            assert(m.text =~= st.text + ("const "@ + spec_tmp_name(st.tmps) + " = "@ + prefix + (
            st.stack.last() + " + "@ + spec_dec(off)) + suffix));
        },
        Err(_) => {},
    }
}

/// Store offset arithmetic: the emitted write statement spells the access
/// as `base + offset` textually, inside the width-correct cast that
/// `prefix`, `mid` and `suffix` form, and writes the value operand.
pub proof fn lemma_store_access_text(
    st: MachineState,
    prefix: Seq<char>,
    off: nat,
    mid: Seq<char>,
    suffix: Seq<char>,
)
    requires
        st.stack.len() >= 2,
    ensures
        (match step_store(st, prefix, off, mid, suffix) {
            Ok(m) => m.text == st.text + (prefix + (st.stack.last() + " + "@ + spec_dec(off)) + mid
                + st.stack[st.stack.len() - 2] + suffix),
            Err(_) => false,
        }),
{
    match step_store(st, prefix, off, mid, suffix) {
        Ok(m) => {
            assert(m.text =~= st.text + (prefix + (st.stack.last() + " + "@ + spec_dec(off)) + mid
                + st.stack[st.stack.len() - 2] + suffix));
        },
        Err(_) => {},
    }
}

} // verus!
