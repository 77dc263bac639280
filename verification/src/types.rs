//! The abstract data model: machine-word slot kinds, interface types, function
//! descriptors, and the structured generation errors, together with the type
//! mapper that spells interface types as Zig types.

use vstd::prelude::*;

use crate::text::spec_join;
use crate::text::join;

verus! {

/// One machine-word slot kind of the low-level calling convention.
#[derive(Clone, Copy, PartialEq, Eq, Structural, Debug)]
pub enum WasmType {
    I32,
    I64,
    F32,
    F64,
}

/// The low-level signature of one function: the slot kinds of its parameters
/// and of its results.
#[derive(Debug)]
pub struct WasmSignature {
    pub params: Vec<WasmType>,
    pub results: Vec<WasmType>,
}

/// The Zig spelling of a machine-word slot kind.
pub open spec fn spec_wasm_spelling(t: WasmType) -> Seq<char> {
    match t {
        WasmType::I32 => "i32"@,
        WasmType::I64 => "i64"@,
        WasmType::F32 => "f32"@,
        WasmType::F64 => "f64"@,
    }
}

/// Maps a machine-word slot kind to its Zig type spelling.
pub fn wasm_type_to_zig_type(t: WasmType) -> (r: &'static str)
    ensures
        r@ == spec_wasm_spelling(t),
{
    match t {
        WasmType::I32 => "i32",
        WasmType::I64 => "i64",
        WasmType::F32 => "f32",
        WasmType::F64 => "f64",
    }
}

/// The kind of an interface type that the mapper does not spell.
#[derive(Clone, Copy, PartialEq, Eq, Structural, Debug)]
pub enum TypeKind {
    Bool,
    Record,
    Resource,
    Handle,
    Flags,
    Variant,
    Enum,
    Option,
    Result,
    List,
    Future,
    Stream,
    Alias,
    Unknown,
}

/// An interface type. Numeric kinds, `char` and `string` are spelled
/// directly; a tuple owns its element types in declared order; every other
/// kind is carried only so that it can be reported as unsupported.
#[derive(Debug)]
pub enum WitType {
    Bool,
    U8,
    U16,
    U32,
    U64,
    S8,
    S16,
    S32,
    S64,
    Float32,
    Float64,
    Char,
    String,
    Tuple(Vec<WitType>),
    Record,
    Resource,
    Handle,
    Flags,
    Variant,
    Enum,
    Option,
    Result,
    List,
    Future,
    Stream,
    Alias,
    Unknown,
}

/// A generation failure. Generation fails fast: the first unsupported
/// construct aborts the enclosing function with one of these.
#[derive(Clone, PartialEq, Eq, Debug)]
pub enum GenError {
    /// A type kind the mapper does not spell.
    UnsupportedType(TypeKind),
    /// An instruction tag the emitter does not handle.
    UnsupportedInstruction(String),
    /// A result shape with no calling convention: named results, more than
    /// one result slot where no out-parameter convention applies, or a
    /// return of two or more operands.
    MissingResultConvention,
    /// An instruction sequence that does not respect operand arities or the
    /// direction it is emitted in.
    MalformedSequence,
}

/// The spec-level mirror of `GenError`, over mathematical values.
pub ghost enum ErrM {
    UnsupportedTy(TypeKind),
    UnsupportedInst(Seq<char>),
    NoResultConvention,
    Malformed,
}

/// The direction that was in progress when a failure surfaced.
#[derive(Clone, Copy, PartialEq, Eq, Structural, Debug)]
pub enum DirectionKind {
    Import,
    Export,
}

/// A surfaced generation failure: the offending construct together with the
/// function and the direction that were in progress.
#[derive(PartialEq, Eq, Debug)]
pub struct GenFailure {
    pub function: String,
    pub direction: DirectionKind,
    pub error: GenError,
}

/// The spec-level mirror of `GenFailure`.
pub ghost struct FailureM {
    pub function: Seq<char>,
    pub direction: DirectionKind,
    pub error: ErrM,
}

impl GenFailure {
    /// The spec-level value of this failure.
    pub open spec fn model(&self) -> FailureM {
        FailureM {
            function: self.function@,
            direction: self.direction,
            error: self.error.model(),
        }
    }
}

impl GenError {
    /// The spec-level value of this error.
    pub open spec fn model(&self) -> ErrM {
        match self {
            GenError::UnsupportedType(k) => ErrM::UnsupportedTy(*k),
            GenError::UnsupportedInstruction(tag) => ErrM::UnsupportedInst(tag@),
            GenError::MissingResultConvention => ErrM::NoResultConvention,
            GenError::MalformedSequence => ErrM::Malformed,
        }
    }
}

/// The Zig spelling of an interface type, or the kind that has none.
pub open spec fn spec_spelling(t: WitType) -> Result<Seq<char>, TypeKind>
    decreases t,
{
    match t {
        WitType::Bool => Err(TypeKind::Bool),
        WitType::U8 => Ok("u8"@),
        WitType::U16 => Ok("u16"@),
        WitType::U32 => Ok("u32"@),
        WitType::U64 => Ok("u64"@),
        WitType::S8 => Ok("i8"@),
        WitType::S16 => Ok("i16"@),
        WitType::S32 => Ok("i32"@),
        WitType::S64 => Ok("i64"@),
        WitType::Float32 => Ok("f32"@),
        WitType::Float64 => Ok("f64"@),
        WitType::Char => Ok("u32"@),
        WitType::String => Ok("[]const u8"@),
        WitType::Tuple(ts) => match spec_spelling_list(ts@) {
            Ok(elems) => Ok("struct{ "@ + spec_join(elems, ", "@) + " }"@),
            Err(k) => Err(k),
        },
        WitType::Record => Err(TypeKind::Record),
        WitType::Resource => Err(TypeKind::Resource),
        WitType::Handle => Err(TypeKind::Handle),
        WitType::Flags => Err(TypeKind::Flags),
        WitType::Variant => Err(TypeKind::Variant),
        WitType::Enum => Err(TypeKind::Enum),
        WitType::Option => Err(TypeKind::Option),
        WitType::Result => Err(TypeKind::Result),
        WitType::List => Err(TypeKind::List),
        WitType::Future => Err(TypeKind::Future),
        WitType::Stream => Err(TypeKind::Stream),
        WitType::Alias => Err(TypeKind::Alias),
        WitType::Unknown => Err(TypeKind::Unknown),
    }
}

/// The spellings of a list of types, or the kind of the leftmost element
/// that has none.
pub open spec fn spec_spelling_list(ts: Seq<WitType>) -> Result<Seq<Seq<char>>, TypeKind>
    decreases ts,
{
    if ts.len() == 0 {
        Ok(Seq::empty())
    } else {
        match spec_spelling_list(ts.drop_last()) {
            Err(k) => Err(k),
            Ok(pre) => match spec_spelling(ts.last()) {
                Err(k) => Err(k),
                Ok(s) => Ok(pre.push(s)),
            },
        }
    }
}

/// Once a prefix of the list has failed, the whole list fails the same way.
proof fn lemma_spelling_list_err(ts: Seq<WitType>, i: int)
    requires
        0 <= i <= ts.len(),
        spec_spelling_list(ts.take(i)) is Err,
    ensures
        spec_spelling_list(ts) == spec_spelling_list(ts.take(i)),
    decreases ts.len() - i,
{
    if i < ts.len() {
        assert(ts.take(i + 1).drop_last() =~= ts.take(i));
        lemma_spelling_list_err(ts, i + 1);
    } else {
        assert(ts.take(i) =~= ts);
    }
}

/// Maps an interface type to its Zig type spelling; a kind outside the
/// supported set is reported, never guessed at.
#[verifier::loop_isolation(false)]
pub fn wit_type_to_zig_type(t: &WitType) -> (r: Result<String, GenError>)
    ensures
        (match r {
            Ok(s) => spec_spelling(*t) == Ok::<Seq<char>, TypeKind>(s@),
            Err(e) => (match spec_spelling(*t) {
                Err(k) => e.model() == ErrM::UnsupportedTy(k),
                Ok(_) => false,
            }),
        }),
    decreases *t,
{
    match t {
        WitType::Bool => Err(GenError::UnsupportedType(TypeKind::Bool)),
        WitType::U8 => Ok(String::from_str("u8")),
        WitType::U16 => Ok(String::from_str("u16")),
        WitType::U32 => Ok(String::from_str("u32")),
        WitType::U64 => Ok(String::from_str("u64")),
        WitType::S8 => Ok(String::from_str("i8")),
        WitType::S16 => Ok(String::from_str("i16")),
        WitType::S32 => Ok(String::from_str("i32")),
        WitType::S64 => Ok(String::from_str("i64")),
        WitType::Float32 => Ok(String::from_str("f32")),
        WitType::Float64 => Ok(String::from_str("f64")),
        WitType::Char => Ok(String::from_str("u32")),
        WitType::String => Ok(String::from_str("[]const u8")),
        WitType::Tuple(ts) => {
            let mut elems: Vec<String> = Vec::new();
            let mut i: usize = 0;
            proof {
                assert(ts@.take(0) =~= Seq::<WitType>::empty());
                assert(elems.deep_view() =~= Seq::<Seq<char>>::empty());
            }
            while i < ts.len()
                invariant
                    i <= ts.len(),
                    spec_spelling_list(ts@.take(i as int)) == Ok::<Seq<Seq<char>>, TypeKind>(
                        elems.deep_view(),
                    ),
                decreases ts.len() - i,
            {
                proof {
                    assert(ts@.take(i as int + 1).drop_last() =~= ts@.take(i as int));
                    assert(ts@.take(i as int + 1).last() == ts@[i as int]);
                    assert(decreases_to!(*t => t->Tuple_0));
                    assert(t->Tuple_0 == *ts);
                    assert(decreases_to!(*ts => ts[i as int]));
                    assert(decreases_to!(*t => ts[i as int]));
                }
                let ghost prev = elems.deep_view();
                match wit_type_to_zig_type(&ts[i]) {
                    Ok(s) => {
                        let ghost sv = s@;
                        elems.push(s);
                        proof {
                            assert(elems.deep_view() =~= prev.push(sv));
                        }
                    },
                    Err(e) => {
                        proof {
                            lemma_spelling_list_err(ts@, i as int + 1);
                        }
                        return Err(e);
                    },
                }
                i = i + 1;
            }
            proof {
                assert(ts@.take(ts@.len() as int) =~= ts@);
            }
            let mut out = String::from_str("struct{ ");
            let joined = join(&elems, ", ");
            out.append(joined.as_str());
            out.append(" }");
            Ok(out)
        },
        WitType::Record => Err(GenError::UnsupportedType(TypeKind::Record)),
        WitType::Resource => Err(GenError::UnsupportedType(TypeKind::Resource)),
        WitType::Handle => Err(GenError::UnsupportedType(TypeKind::Handle)),
        WitType::Flags => Err(GenError::UnsupportedType(TypeKind::Flags)),
        WitType::Variant => Err(GenError::UnsupportedType(TypeKind::Variant)),
        WitType::Enum => Err(GenError::UnsupportedType(TypeKind::Enum)),
        WitType::Option => Err(GenError::UnsupportedType(TypeKind::Option)),
        WitType::Result => Err(GenError::UnsupportedType(TypeKind::Result)),
        WitType::List => Err(GenError::UnsupportedType(TypeKind::List)),
        WitType::Future => Err(GenError::UnsupportedType(TypeKind::Future)),
        WitType::Stream => Err(GenError::UnsupportedType(TypeKind::Stream)),
        WitType::Alias => Err(GenError::UnsupportedType(TypeKind::Alias)),
        WitType::Unknown => Err(GenError::UnsupportedType(TypeKind::Unknown)),
    }
}

/// One declared parameter of a function: its name and its interface type.
#[derive(Debug)]
pub struct Param {
    pub name: String,
    pub ty: WitType,
}

/// The result shape of a function: a single anonymous type, or a (possibly
/// empty) list of named results.
#[derive(Debug)]
pub enum ResultShape {
    Anon(WitType),
    Named(Vec<Param>),
}

/// One function of an interface or world: its name, its ordered parameters
/// and its result shape.
#[derive(Debug)]
pub struct Function {
    pub name: String,
    pub params: Vec<Param>,
    pub results: ResultShape,
}

impl Function {
    /// The declared parameter names, in order.
    pub open spec fn param_names(&self) -> Seq<Seq<char>> {
        self.params@.map_values(|p: Param| p.name@)
    }
}

/// The Zig spelling of a result shape in the high-level (import wrapper)
/// signature: `void` for no results, the type of a single anonymous result;
/// a non-empty named result list has no convention.
pub open spec fn spec_result_spelling(rs: ResultShape) -> Result<Seq<char>, ErrM> {
    match rs {
        ResultShape::Named(ps) => if ps@.len() == 0 {
            Ok("void"@)
        } else {
            Err(ErrM::NoResultConvention)
        },
        ResultShape::Anon(t) => match spec_spelling(t) {
            Ok(s) => Ok(s),
            Err(k) => Err(ErrM::UnsupportedTy(k)),
        },
    }
}

/// Spells the result type of a high-level function signature.
pub fn result_spelling(rs: &ResultShape) -> (r: Result<String, GenError>)
    ensures
        (match r {
            Ok(s) => spec_result_spelling(*rs) == Ok::<Seq<char>, ErrM>(s@),
            Err(e) => spec_result_spelling(*rs) == Err::<Seq<char>, ErrM>(e.model()),
        }),
{
    match rs {
        ResultShape::Named(ps) => {
            if ps.len() == 0 {
                Ok(String::from_str("void"))
            } else {
                Err(GenError::MissingResultConvention)
            }
        },
        ResultShape::Anon(t) => match wit_type_to_zig_type(t) {
            Ok(s) => Ok(s),
            Err(e) => Err(e),
        },
    }
}

} // verus!
