//! The world generator: whole functions emitted in each direction, filed in
//! scope trees, and assembled into the final Zig module text.

use vstd::prelude::*;

use crate::emit::DirM;
use crate::emit::Direction;
use crate::emit::Emitter;
use crate::emit::Instruction;
use crate::emit::MachineState;
use crate::emit::run;
use crate::emit::spec_wasm_result;
use crate::ident::lower_camel_of;
use crate::ident::snake_of;
use crate::ident::to_lower_camel;
use crate::ident::to_snake;
use crate::scopes::EntryM;
use crate::scopes::ScopeKey;
use crate::scopes::ScopedSources;
use crate::scopes::get_path;
use crate::scopes::name_world_key;
use crate::scopes::spec_scope_path;
use crate::scopes::spec_world_key_name;
use crate::scopes::tree_of;
use crate::scopes::tree_render;
use crate::text::join;
use crate::text::spec_dec;
use crate::text::spec_join;
use crate::text::u64_dec;
use crate::types::DirectionKind;
use crate::types::ErrM;
use crate::types::FailureM;
use crate::types::Function;
use crate::types::GenError;
use crate::types::GenFailure;
use crate::types::Param;
use crate::types::WasmSignature;
use crate::types::WasmType;
use crate::types::spec_result_spelling;
use crate::types::spec_wasm_spelling;
use crate::types::spec_spelling;
use crate::types::result_spelling;
use crate::types::wasm_type_to_zig_type;
use crate::types::wit_type_to_zig_type;

verus! {

/// Options of a generation run.
#[derive(Debug, Clone)]
pub struct Opts {
    /// The file where the user-supplied implementations of exported
    /// functions are defined; without one, exports are bound to a stub.
    pub exports_file: Option<String>,
}

impl Opts {
    /// The spec-level value of the exports file option.
    pub open spec fn file_view(&self) -> Option<Seq<char>> {
        match self.exports_file {
            Some(f) => Some(f@),
            None => None,
        }
    }
}

impl Default for Opts {
    /// No exports file: exports are bound to a stub.
    fn default() -> (r: Opts)
        ensures
            r.exports_file is None,
    {
        Opts { exports_file: None }
    }
}

/// The parameter declarations of a high-level signature, `name: type` each,
/// or the leftmost failure.
pub open spec fn spec_param_decls(ps: Seq<Param>) -> Result<Seq<Seq<char>>, ErrM>
    decreases ps.len(),
{
    if ps.len() == 0 {
        Ok(Seq::empty())
    } else {
        match spec_param_decls(ps.drop_last()) {
            Err(e) => Err(e),
            Ok(pre) => match spec_spelling(ps.last().ty) {
                Err(k) => Err(ErrM::UnsupportedTy(k)),
                Ok(s) => Ok(pre.push(ps.last().name@ + ": "@ + s)),
            },
        }
    }
}

/// Once a prefix of the parameters has failed, the whole list fails the
/// same way.
proof fn lemma_param_decls_err(ps: Seq<Param>, i: int)
    requires
        0 <= i <= ps.len(),
        spec_param_decls(ps.take(i)) is Err,
    ensures
        spec_param_decls(ps) == spec_param_decls(ps.take(i)),
    decreases ps.len() - i,
{
    if i < ps.len() {
        assert(ps.take(i + 1).drop_last() =~= ps.take(i));
        lemma_param_decls_err(ps, i + 1);
    } else {
        assert(ps.take(i) =~= ps);
    }
}

/// The text of one import wrapper: a public function with the declared
/// parameters whose body runs the instruction sequence against the named
/// low-level module. The operand stack must come out empty.
pub open spec fn spec_import_text(
    func: Function,
    lib: Seq<char>,
    insts: Seq<Instruction>,
) -> Result<Seq<char>, ErrM> {
    match spec_result_spelling(func.results) {
        Err(e) => Err(e),
        Ok(rt) => match spec_param_decls(func.params@) {
            Err(e) => Err(e),
            Ok(decls) => match run(DirM::Imp(lib), func.param_names(), MachineState::init(), insts) {
                Err(e) => Err(e),
                Ok(m) => if m.stack.len() != 0 {
                    Err(ErrM::Malformed)
                } else {
                    Ok(
                        "pub fn "@ + lower_camel_of(func.name@) + "("@ + spec_join(decls, ", "@)
                            + ") "@ + rt + " {\n"@ + m.text + "}\n"@,
                    )
                },
            },
        },
    }
}

/// Emits one import wrapper. A failure names the function and the import
/// direction beside the offending construct.
#[verifier::loop_isolation(false)]
pub fn import(library_name: &str, func: &Function, insts: &Vec<Instruction>) -> (r: Result<
    String,
    GenFailure,
>)
    ensures
        (match r {
            Ok(s) => spec_import_text(*func, library_name@, insts@) == Ok::<Seq<char>, ErrM>(s@),
            Err(f) => (match spec_import_text(*func, library_name@, insts@) {
                Err(em) => f.model() == (FailureM {
                    function: func.name@,
                    direction: DirectionKind::Import,
                    error: em,
                }),
                Ok(_) => false,
            }),
        }),
{
    let rt = match result_spelling(&func.results) {
        Ok(s) => s,
        Err(e) => {
            return Err(GenFailure {
                function: func.name.clone(),
                direction: DirectionKind::Import,
                error: e,
            });
        },
    };
    let mut decls: Vec<String> = Vec::new();
    let mut names: Vec<String> = Vec::new();
    let mut i: usize = 0;
    proof {
        assert(func.params@.take(0) =~= Seq::<Param>::empty());
        assert(decls.deep_view() =~= Seq::<Seq<char>>::empty());
        assert(names.deep_view() =~= func.param_names().take(0));
    }
    while i < func.params.len()
        invariant
            i <= func.params@.len(),
            spec_param_decls(func.params@.take(i as int)) == Ok::<Seq<Seq<char>>, ErrM>(
                decls.deep_view(),
            ),
            names.deep_view() == func.param_names().take(i as int),
        decreases func.params@.len() - i,
    {
        proof {
            assert(func.params@.take(i as int + 1).drop_last() =~= func.params@.take(i as int));
            assert(func.params@.take(i as int + 1).last() == func.params@[i as int]);
        }
        let p = &func.params[i];
        match wit_type_to_zig_type(&p.ty) {
            Ok(s) => {
                let ghost pre = decls.deep_view();
                let mut d = p.name.clone();
                d.append(": ");
                d.append(s.as_str());
                let ghost dv = d@;
                decls.push(d);
                let ghost npre = names.deep_view();
                names.push(p.name.clone());
                proof {
                    assert(decls.deep_view() =~= pre.push(dv));
                    assert(names.deep_view() =~= npre.push(func.params@[i as int].name@));
                    assert(names.deep_view() =~= func.param_names().take(i as int + 1));
                }
            },
            Err(e) => {
                proof {
                    lemma_param_decls_err(func.params@, i as int + 1);
                }
                return Err(GenFailure {
                    function: func.name.clone(),
                    direction: DirectionKind::Import,
                    error: e,
                });
            },
        }
        i = i + 1;
    }
    proof {
        assert(func.params@.take(func.params@.len() as int) =~= func.params@);
        assert(func.param_names().take(func.params@.len() as int) =~= func.param_names());
    }
    let dir = Direction::Import { module: String::from_str(library_name) };
    let mut em = Emitter::new();
    match em.emit_seq(&dir, &names, insts) {
        Ok(_) => {},
        Err(e) => {
            return Err(GenFailure {
                function: func.name.clone(),
                direction: DirectionKind::Import,
                error: e,
            });
        },
    }
    if em.stack_len() != 0 {
        return Err(GenFailure {
            function: func.name.clone(),
            direction: DirectionKind::Import,
            error: GenError::MalformedSequence,
        });
    }
    let mut out = String::from_str("pub fn ");
    let camel = to_lower_camel(func.name.as_str());
    out.append(camel.as_str());
    out.append("(");
    let decl_list = join(&decls, ", ");
    out.append(decl_list.as_str());
    out.append(") ");
    out.append(rt.as_str());
    out.append(" {\n");
    let body = em.into_text();
    out.append(body.as_str());
    out.append("}\n");
    proof {
        assert(out@ =~= "pub fn "@ + lower_camel_of(func.name@) + "("@ + spec_join(
            decls.deep_view(),
            ", "@,
        ) + ") "@ + rt@ + " {\n"@ + body@ + "}\n"@);
    }
    Ok(out)
}

/// The parameter names of a low-level entry point: `p0`, `p1`, and so on.
pub open spec fn spec_pnames(n: nat) -> Seq<Seq<char>> {
    Seq::new(n, |i: int| "p"@ + spec_dec(i as nat))
}

/// The parameter declarations of a low-level entry point: `p<i>: <slot type>`.
pub open spec fn spec_export_decls(ps: Seq<WasmType>) -> Seq<Seq<char>> {
    Seq::new(ps.len(), |i: int| "p"@ + spec_dec(i as nat) + ": "@ + spec_wasm_spelling(ps[i]))
}

/// The externally visible symbol of an exported function:
/// `<scope>#<name>` when filed under a key, the bare name when flat.
pub open spec fn spec_export_symbol(key: Option<ScopeKey>, fname: Seq<char>) -> Seq<char> {
    match key {
        Some(k) => spec_world_key_name(k) + "#"@ + fname,
        None => fname,
    }
}

/// The scope path an exported function's high-level counterpart is addressed
/// under.
pub open spec fn spec_export_path(key: Option<ScopeKey>) -> Seq<Seq<char>> {
    match key {
        Some(k) => spec_scope_path(k),
        None => Seq::empty(),
    }
}

/// The text of one export entry point: an exported function over slot-typed
/// parameters whose body runs the instruction sequence toward the
/// user-supplied implementation. The operand stack must come out empty.
pub open spec fn spec_export_text(
    func: Function,
    key: Option<ScopeKey>,
    sig: WasmSignature,
    insts: Seq<Instruction>,
) -> Result<Seq<char>, ErrM> {
    if sig.results@.len() > 1 {
        Err(ErrM::NoResultConvention)
    } else {
        match run(
            DirM::Exp(spec_export_path(key)),
            spec_pnames(sig.params@.len()),
            MachineState::init(),
            insts,
        ) {
            Err(e) => Err(e),
            Ok(m) => if m.stack.len() != 0 {
                Err(ErrM::Malformed)
            } else {
                Ok(
                    "export fn @\""@ + spec_export_symbol(key, func.name@) + "\"("@ + spec_join(
                        spec_export_decls(sig.params@),
                        ", "@,
                    ) + ") "@ + spec_wasm_result(sig.results@) + " {\n"@ + m.text + "}\n"@,
                )
            },
        }
    }
}

/// The spec-level value of an optional key reference.
pub open spec fn spec_key_of(key: Option<&ScopeKey>) -> Option<ScopeKey> {
    match key {
        Some(k) => Some(*k),
        None => None,
    }
}

/// Emits one export entry point. A failure names the function and the
/// export direction beside the offending construct.
#[verifier::loop_isolation(false)]
pub fn export(
    key: Option<&ScopeKey>,
    func: &Function,
    sig: &WasmSignature,
    insts: &Vec<Instruction>,
) -> (r: Result<String, GenFailure>)
    ensures
        (match r {
            Ok(s) => spec_export_text(*func, spec_key_of(key), *sig, insts@) == Ok::<
                Seq<char>,
                ErrM,
            >(s@),
            Err(f) => (match spec_export_text(*func, spec_key_of(key), *sig, insts@) {
                Err(em) => f.model() == (FailureM {
                    function: func.name@,
                    direction: DirectionKind::Export,
                    error: em,
                }),
                Ok(_) => false,
            }),
        }),
{
    if sig.results.len() > 1 {
        return Err(GenFailure {
            function: func.name.clone(),
            direction: DirectionKind::Export,
            error: GenError::MissingResultConvention,
        });
    }
    let mut names: Vec<String> = Vec::new();
    let mut decls: Vec<String> = Vec::new();
    let mut i: usize = 0;
    proof {
        assert(names.deep_view() =~= spec_pnames(sig.params@.len()).take(0));
        assert(decls.deep_view() =~= spec_export_decls(sig.params@).take(0));
    }
    while i < sig.params.len()
        invariant
            i <= sig.params@.len(),
            names.deep_view() == spec_pnames(sig.params@.len()).take(i as int),
            decls.deep_view() == spec_export_decls(sig.params@).take(i as int),
        decreases sig.params@.len() - i,
    {
        let ghost npre = names.deep_view();
        let ghost dpre = decls.deep_view();
        let mut name = String::from_str("p");
        let num = u64_dec(i as u64);
        name.append(num.as_str());
        let mut decl = name.clone();
        decl.append(": ");
        decl.append(wasm_type_to_zig_type(sig.params[i]));
        let ghost nv = name@;
        let ghost dv = decl@;
        names.push(name);
        decls.push(decl);
        proof {
            assert(names.deep_view() =~= npre.push(nv));
            assert(decls.deep_view() =~= dpre.push(dv));
            assert(names.deep_view() =~= spec_pnames(sig.params@.len()).take(i as int + 1));
            assert(decls.deep_view() =~= spec_export_decls(sig.params@).take(i as int + 1));
        }
        i = i + 1;
    }
    proof {
        assert(spec_pnames(sig.params@.len()).take(sig.params@.len() as int) =~= spec_pnames(
            sig.params@.len(),
        ));
        assert(spec_export_decls(sig.params@).take(sig.params@.len() as int) =~= spec_export_decls(
            sig.params@,
        ));
    }
    let symbol = match key {
        Some(k) => {
            let mut s = name_world_key(k);
            s.append("#");
            s.append(func.name.as_str());
            s
        },
        None => {
            let mut s = String::new();
            s.append(func.name.as_str());
            s
        },
    };
    proof {
        assert(symbol@ =~= spec_export_symbol(spec_key_of(key), func.name@));
    }
    let path = match key {
        Some(k) => get_path(k),
        None => Vec::new(),
    };
    proof {
        assert(path.deep_view() =~= spec_export_path(spec_key_of(key)));
    }
    let dir = Direction::Export { path };
    let mut em = Emitter::new();
    match em.emit_seq(&dir, &names, insts) {
        Ok(_) => {},
        Err(e) => {
            return Err(GenFailure {
                function: func.name.clone(),
                direction: DirectionKind::Export,
                error: e,
            });
        },
    }
    if em.stack_len() != 0 {
        return Err(GenFailure {
            function: func.name.clone(),
            direction: DirectionKind::Export,
            error: GenError::MalformedSequence,
        });
    }
    let mut out = String::from_str("export fn @\"");
    out.append(symbol.as_str());
    out.append("\"(");
    let decl_list = join(&decls, ", ");
    out.append(decl_list.as_str());
    out.append(") ");
    if sig.results.len() == 0 {
        out.append("void");
    } else {
        out.append(wasm_type_to_zig_type(sig.results[0]));
    }
    out.append(" {\n");
    let body = em.into_text();
    out.append(body.as_str());
    out.append("}\n");
    proof {
        assert(out@ =~= "export fn @\""@ + spec_export_symbol(spec_key_of(key), func.name@)
            + "\"("@ + spec_join(spec_export_decls(sig.params@), ", "@) + ") "@ + spec_wasm_result(
            sig.results@,
        ) + " {\n"@ + body@ + "}\n"@);
    }
    Ok(out)
}

/// One function to import: its descriptor and its lowering instruction
/// sequence, supplied by the instruction provider.
#[derive(Debug)]
pub struct ImportItem {
    pub func: Function,
    pub insts: Vec<Instruction>,
}

/// One function to export: its descriptor, its low-level signature and its
/// lifting instruction sequence, supplied by the instruction provider.
#[derive(Debug)]
pub struct ExportItem {
    pub func: Function,
    pub sig: WasmSignature,
    pub insts: Vec<Instruction>,
}

/// The concatenated import wrappers of a group of functions, or the first
/// failure, naming the function it struck.
pub open spec fn spec_import_section(lib: Seq<char>, items: Seq<ImportItem>) -> Result<
    Seq<char>,
    FailureM,
>
    decreases items.len(),
{
    if items.len() == 0 {
        Ok(Seq::empty())
    } else {
        match spec_import_section(lib, items.drop_last()) {
            Err(f) => Err(f),
            Ok(pre) => match spec_import_text(items.last().func, lib, items.last().insts@) {
                Err(em) => Err(
                    FailureM {
                        function: items.last().func.name@,
                        direction: DirectionKind::Import,
                        error: em,
                    },
                ),
                Ok(t) => Ok(pre + t),
            },
        }
    }
}

proof fn lemma_import_section_err(lib: Seq<char>, items: Seq<ImportItem>, i: int)
    requires
        0 <= i <= items.len(),
        spec_import_section(lib, items.take(i)) is Err,
    ensures
        spec_import_section(lib, items) == spec_import_section(lib, items.take(i)),
    decreases items.len() - i,
{
    if i < items.len() {
        assert(items.take(i + 1).drop_last() =~= items.take(i));
        lemma_import_section_err(lib, items, i + 1);
    } else {
        assert(items.take(i) =~= items);
    }
}

/// The concatenated export entry points of a group of functions, or the
/// first failure, naming the function it struck.
pub open spec fn spec_export_section(key: Option<ScopeKey>, items: Seq<ExportItem>) -> Result<
    Seq<char>,
    FailureM,
>
    decreases items.len(),
{
    if items.len() == 0 {
        Ok(Seq::empty())
    } else {
        match spec_export_section(key, items.drop_last()) {
            Err(f) => Err(f),
            Ok(pre) => match spec_export_text(
                items.last().func,
                key,
                items.last().sig,
                items.last().insts@,
            ) {
                Err(em) => Err(
                    FailureM {
                        function: items.last().func.name@,
                        direction: DirectionKind::Export,
                        error: em,
                    },
                ),
                Ok(t) => Ok(pre + t),
            },
        }
    }
}

proof fn lemma_export_section_err(key: Option<ScopeKey>, items: Seq<ExportItem>, i: int)
    requires
        0 <= i <= items.len(),
        spec_export_section(key, items.take(i)) is Err,
    ensures
        spec_export_section(key, items) == spec_export_section(key, items.take(i)),
    decreases items.len() - i,
{
    if i < items.len() {
        assert(items.take(i + 1).drop_last() =~= items.take(i));
        lemma_export_section_err(key, items, i + 1);
    } else {
        assert(items.take(i) =~= items);
    }
}

/// Emits the import wrappers of a group of functions and concatenates them.
#[verifier::loop_isolation(false)]
fn import_group(library_name: &str, items: &Vec<ImportItem>) -> (r: Result<String, GenFailure>)
    ensures
        (match r {
            Ok(s) => spec_import_section(library_name@, items@) == Ok::<Seq<char>, FailureM>(s@),
            Err(f) => spec_import_section(library_name@, items@) == Err::<Seq<char>, FailureM>(
                f.model(),
            ),
        }),
{
    let mut out = String::new();
    let mut i: usize = 0;
    proof {
        assert(items@.take(0) =~= Seq::<ImportItem>::empty());
    }
    while i < items.len()
        invariant
            i <= items@.len(),
            spec_import_section(library_name@, items@.take(i as int)) == Ok::<
                Seq<char>,
                FailureM,
            >(out@),
        decreases items@.len() - i,
    {
        proof {
            assert(items@.take(i as int + 1).drop_last() =~= items@.take(i as int));
            assert(items@.take(i as int + 1).last() == items@[i as int]);
        }
        match import(library_name, &items[i].func, &items[i].insts) {
            Ok(t) => {
                out.append(t.as_str());
            },
            Err(e) => {
                proof {
                    lemma_import_section_err(library_name@, items@, i as int + 1);
                }
                return Err(e);
            },
        }
        i = i + 1;
    }
    proof {
        assert(items@.take(items@.len() as int) =~= items@);
    }
    Ok(out)
}

/// Emits the export entry points of a group of functions and concatenates
/// them.
#[verifier::loop_isolation(false)]
fn export_group(key: Option<&ScopeKey>, items: &Vec<ExportItem>) -> (r: Result<
    String,
    GenFailure,
>)
    ensures
        (match r {
            Ok(s) => spec_export_section(spec_key_of(key), items@) == Ok::<Seq<char>, FailureM>(
                s@,
            ),
            Err(f) => spec_export_section(spec_key_of(key), items@) == Err::<Seq<char>, FailureM>(
                f.model(),
            ),
        }),
{
    let mut out = String::new();
    let mut i: usize = 0;
    proof {
        assert(items@.take(0) =~= Seq::<ExportItem>::empty());
    }
    while i < items.len()
        invariant
            i <= items@.len(),
            spec_export_section(spec_key_of(key), items@.take(i as int)) == Ok::<
                Seq<char>,
                FailureM,
            >(out@),
        decreases items@.len() - i,
    {
        proof {
            assert(items@.take(i as int + 1).drop_last() =~= items@.take(i as int));
            assert(items@.take(i as int + 1).last() == items@[i as int]);
        }
        match export(key, &items[i].func, &items[i].sig, &items[i].insts) {
            Ok(t) => {
                out.append(t.as_str());
            },
            Err(e) => {
                proof {
                    lemma_export_section_err(spec_key_of(key), items@, i as int + 1);
                }
                return Err(e);
            },
        }
        i = i + 1;
    }
    proof {
        assert(items@.take(items@.len() as int) =~= items@);
    }
    Ok(out)
}

/// The fixed epilogue of a module with exports: a compile-time walk that
/// references every exported declaration, so that an unused one still fails
/// the build when it is unreachable.
pub open spec fn spec_epilogue() -> Seq<char> {
    "\ncomptime {\n    refAllStructDeclsRecursive(exports);\n}\n\nfn refAllStructDeclsRecursive(comptime T: type) void {\n    inline for (@typeInfo(T).Struct.decls) |decl| {\n        const sub_decl = @field(T, decl.name);\n        if (@typeInfo(sub_decl) == .Struct) {\n            refAllStructDeclsRecursive(sub_decl);\n        }\n    }\n}\n"@
}

/// The whole module text: the rendered import scopes; then, if anything is
/// exported, the exports block bound to the user-supplied implementation
/// (or a stub), and the verification epilogue.
pub open spec fn spec_finish_text(
    imports: Seq<EntryM>,
    exports: Seq<EntryM>,
    exports_file: Option<Seq<char>>,
) -> Seq<char> {
    let imp = tree_render(tree_of(imports));
    if exports.len() == 0 {
        imp
    } else {
        imp + "const exports = struct {\n"@ + (match exports_file {
            Some(f) => "const __user_exports = @import(\""@ + f + "\");\n\n"@,
            None => "const __user_exports = stub;\n\n"@,
        }) + tree_render(tree_of(exports)) + "};\n"@ + spec_epilogue()
    }
}

/// The world generator: options and the two scope trees the emitted
/// functions are filed in.
#[derive(Debug)]
pub struct Zig {
    pub opts: Opts,
    import_scopes: ScopedSources,
    export_scopes: ScopedSources,
}

impl Zig {
    /// The options of this run.
    pub closed spec fn spec_opts(&self) -> Opts {
        self.opts
    }

    /// The filed import fragments, each with its path, in filing order.
    pub closed spec fn imports_model(&self) -> Seq<EntryM> {
        self.import_scopes.model()
    }

    /// The filed export fragments, each with its path, in filing order.
    pub closed spec fn exports_model(&self) -> Seq<EntryM> {
        self.export_scopes.model()
    }

    /// A fresh generator with the given options.
    pub fn new(opts: Opts) -> (r: Zig)
        ensures
            r.spec_opts() == opts,
            r.imports_model() == Seq::<EntryM>::empty(),
            r.exports_model() == Seq::<EntryM>::empty(),
    {
        Zig {
            opts,
            import_scopes: ScopedSources::new(),
            export_scopes: ScopedSources::new(),
        }
    }

    /// Emits every function of an imported interface and files the result
    /// under the interface's path; on failure nothing is filed.
    pub fn import_interface(&mut self, key: &ScopeKey, items: &Vec<ImportItem>) -> (r: Result<
        (),
        GenFailure,
    >)
        ensures
            (match spec_import_section(spec_world_key_name(*key), items@) {
                Ok(txt) => r is Ok && final(self).imports_model() == old(self).imports_model().push(
                    EntryM { path: spec_scope_path(*key), text: txt },
                ),
                Err(em) => (match r {
                    Ok(_) => false,
                    Err(e) => e.model() == em,
                }) && final(self).imports_model() == old(self).imports_model(),
            }),
            final(self).exports_model() == old(self).exports_model(),
            final(self).spec_opts() == old(self).spec_opts(),
    {
        let lib = name_world_key(key);
        match import_group(lib.as_str(), items) {
            Ok(src) => {
                self.import_scopes.push(key, src);
                Ok(())
            },
            Err(e) => Err(e),
        }
    }

    /// Emits every function imported at world level and files the result
    /// under the flat path, against the root module; on failure nothing is
    /// filed.
    pub fn import_funcs(&mut self, items: &Vec<ImportItem>) -> (r: Result<(), GenFailure>)
        ensures
            (match spec_import_section("$root"@, items@) {
                Ok(txt) => r is Ok && final(self).imports_model() == old(self).imports_model().push(
                    EntryM { path: Seq::empty(), text: txt },
                ),
                Err(em) => (match r {
                    Ok(_) => false,
                    Err(e) => e.model() == em,
                }) && final(self).imports_model() == old(self).imports_model(),
            }),
            final(self).exports_model() == old(self).exports_model(),
            final(self).spec_opts() == old(self).spec_opts(),
    {
        match import_group("$root", items) {
            Ok(src) => {
                self.import_scopes.push_flat(src);
                Ok(())
            },
            Err(e) => Err(e),
        }
    }

    /// Emits every function of an exported interface and files the result
    /// under the interface's path; on failure nothing is filed.
    pub fn export_interface(&mut self, key: &ScopeKey, items: &Vec<ExportItem>) -> (r: Result<
        (),
        GenFailure,
    >)
        ensures
            (match spec_export_section(Some(*key), items@) {
                Ok(txt) => r is Ok && final(self).exports_model() == old(self).exports_model().push(
                    EntryM { path: spec_scope_path(*key), text: txt },
                ),
                Err(em) => (match r {
                    Ok(_) => false,
                    Err(e) => e.model() == em,
                }) && final(self).exports_model() == old(self).exports_model(),
            }),
            final(self).imports_model() == old(self).imports_model(),
            final(self).spec_opts() == old(self).spec_opts(),
    {
        match export_group(Some(key), items) {
            Ok(src) => {
                self.export_scopes.push(key, src);
                Ok(())
            },
            Err(e) => Err(e),
        }
    }

    /// Emits every function exported at world level and files the result
    /// under the flat path; on failure nothing is filed.
    pub fn export_funcs(&mut self, items: &Vec<ExportItem>) -> (r: Result<(), GenFailure>)
        ensures
            (match spec_export_section(None, items@) {
                Ok(txt) => r is Ok && final(self).exports_model() == old(self).exports_model().push(
                    EntryM { path: Seq::empty(), text: txt },
                ),
                Err(em) => (match r {
                    Ok(_) => false,
                    Err(e) => e.model() == em,
                }) && final(self).exports_model() == old(self).exports_model(),
            }),
            final(self).imports_model() == old(self).imports_model(),
            final(self).spec_opts() == old(self).spec_opts(),
    {
        match export_group(None, items) {
            Ok(src) => {
                self.export_scopes.push_flat(src);
                Ok(())
            },
            Err(e) => Err(e),
        }
    }

    /// Assembles the whole module: imports first, then the exports block and
    /// its verification epilogue when anything is exported.
    pub fn finish(&self) -> (r: String)
        ensures
            r@ == spec_finish_text(
                self.imports_model(),
                self.exports_model(),
                self.spec_opts().file_view(),
            ),
    {
        let mut total = self.import_scopes.get_source();
        if self.export_scopes.is_empty() {
            proof {
                assert(total@ =~= spec_finish_text(
                    self.imports_model(),
                    self.exports_model(),
                    self.opts.file_view(),
                ));
            }
            return total;
        }
        total.append("const exports = struct {\n");
        match &self.opts.exports_file {
            Some(f) => {
                total.append("const __user_exports = @import(\"");
                total.append(f.as_str());
                total.append("\");\n\n");
            },
            None => {
                total.append("const __user_exports = stub;\n\n");
            },
        }
        let exports_src = self.export_scopes.get_source();
        total.append(exports_src.as_str());
        total.append("};\n");
        total.append(
            "\ncomptime {\n    refAllStructDeclsRecursive(exports);\n}\n\nfn refAllStructDeclsRecursive(comptime T: type) void {\n    inline for (@typeInfo(T).Struct.decls) |decl| {\n        const sub_decl = @field(T, decl.name);\n        if (@typeInfo(sub_decl) == .Struct) {\n            refAllStructDeclsRecursive(sub_decl);\n        }\n    }\n}\n",
        );
        proof {
            assert(total@ =~= spec_finish_text(
                self.imports_model(),
                self.exports_model(),
                self.opts.file_view(),
            ));
        }
        total
    }
}

impl Default for Zig {
    /// A fresh generator with default options.
    fn default() -> (r: Zig)
        ensures
            r.spec_opts().exports_file is None,
            r.imports_model() == Seq::<EntryM>::empty(),
            r.exports_model() == Seq::<EntryM>::empty(),
    {
        Zig::new(Opts::default())
    }
}

/// The output file name of a world: its snake_case name with the `.zig`
/// extension.
pub fn file_name(world_name: &str) -> (r: String)
    ensures
        r@ == snake_of(world_name@) + ".zig"@,
{
    let mut out = to_snake(world_name);
    out.append(".zig");
    out
}

} // verus!
