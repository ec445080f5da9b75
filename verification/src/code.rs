//! The deserialized form of binary modules and scripts: exactly the tables
//! the loader reads, with name and address pools already resolved into the
//! handles.  Deserialization itself is an outside collaborator; the loader
//! re-checks that every cross-table index is in bounds before trusting one.

use vstd::prelude::*;

use crate::abilities::AbilitySet;
use crate::ids::ModuleId;

verus! {

broadcast use vstd::std_specs::vec::group_vec_axioms;

/// A type as written in a signature: a tree over primitive types, type
/// parameters and struct handles.
#[derive(Debug)]
pub enum SignatureToken {
    Bool,
    U8,
    U64,
    U128,
    Address,
    Signer,
    Vector(Box<SignatureToken>),
    Reference(Box<SignatureToken>),
    MutableReference(Box<SignatureToken>),
    TypeParameter(usize),
    Struct(usize),
    StructInstantiation(usize, Vec<SignatureToken>),
}

impl SignatureToken {
    /// Every struct handle named in the token is an index below `n_handles`.
    pub open spec fn wf(self, n_handles: int) -> bool
        decreases self,
    {
        match self {
            SignatureToken::Vector(t) => t.wf(n_handles),
            SignatureToken::Reference(t) => t.wf(n_handles),
            SignatureToken::MutableReference(t) => t.wf(n_handles),
            SignatureToken::Struct(h) => h < n_handles,
            SignatureToken::StructInstantiation(h, ts) => h < n_handles && forall|i: int|
                0 <= i < ts@.len() ==> (#[trigger] ts@[i]).wf(n_handles),
            _ => true,
        }
    }

    /// Decides [`SignatureToken::wf`].
    #[verifier::loop_isolation(false)]
    pub fn check(&self, n_handles: usize) -> (r: bool)
        ensures
            r <==> self.wf(n_handles as int),
        decreases *self,
    {
        match self {
            SignatureToken::Vector(t) => t.check(n_handles),
            SignatureToken::Reference(t) => t.check(n_handles),
            SignatureToken::MutableReference(t) => t.check(n_handles),
            SignatureToken::Struct(h) => *h < n_handles,
            SignatureToken::StructInstantiation(h, ts) => {
                if *h >= n_handles {
                    return false;
                }
                let mut i: usize = 0;
                while i < ts.len()
                    invariant
                        0 <= i <= ts@.len(),
                        forall|j: int| 0 <= j < i ==> (#[trigger] ts@[j]).wf(n_handles as int),
                    decreases ts@.len() - i,
                {
                    if !ts[i].check(n_handles) {
                        return false;
                    }
                    i = i + 1;
                }
                true
            }
            _ => true,
        }
    }
}

/// Every token of the list is well formed with respect to `n_handles`.
pub open spec fn tokens_wf(ts: Seq<SignatureToken>, n_handles: int) -> bool {
    forall|i: int| 0 <= i < ts.len() ==> (#[trigger] ts[i]).wf(n_handles)
}

/// Decides [`tokens_wf`].
#[verifier::loop_isolation(false)]
pub fn tokens_check(ts: &Vec<SignatureToken>, n_handles: usize) -> (r: bool)
    ensures
        r <==> tokens_wf(ts@, n_handles as int),
{
    let mut i: usize = 0;
    while i < ts.len()
        invariant
            0 <= i <= ts@.len(),
            forall|j: int| 0 <= j < i ==> (#[trigger] ts@[j]).wf(n_handles as int),
        decreases ts@.len() - i,
    {
        if !ts[i].check(n_handles) {
            return false;
        }
        i = i + 1;
    }
    true
}

/// A reference to a struct declaration, by the module that declares it and
/// the struct's name, together with its declared abilities and type
/// parameters.
#[derive(Debug)]
pub struct StructHandle {
    /// Index into the module handle table.
    pub module: usize,
    /// The struct's name.
    pub name: Vec<u8>,
    /// The declared ability set.
    pub abilities: AbilitySet,
    /// The declared type parameters.
    pub type_parameters: Vec<StructTypeParameter>,
}

/// A declared type parameter of a struct.
#[derive(Clone, Copy, PartialEq, Eq, Structural, Debug)]
pub struct StructTypeParameter {
    /// The abilities every instantiation of this parameter must carry.
    pub constraints: AbilitySet,
    /// A phantom parameter does not take part in ability inference.
    pub is_phantom: bool,
}

/// A reference to a function declaration, by module and name, with its
/// signature.
#[derive(Debug)]
pub struct FunctionHandle {
    /// Index into the module handle table.
    pub module: usize,
    /// The function's name.
    pub name: Vec<u8>,
    /// Index into the signature table: the parameter list.
    pub parameters: usize,
    /// Index into the signature table: the return list.
    pub return_: usize,
    /// The ability constraints of the declared type parameters.
    pub type_parameters: Vec<AbilitySet>,
}

/// How a struct's fields are given.
#[derive(Debug)]
pub enum StructFieldInformation {
    /// The struct is declared native; the loader rejects such modules.
    Native,
    /// The field types, in declaration order.
    Declared(Vec<SignatureToken>),
}

/// A struct declared by the module.
#[derive(Debug)]
pub struct StructDef {
    /// Index into the struct handle table.
    pub struct_handle: usize,
    /// The fields.
    pub field_information: StructFieldInformation,
}

/// A generic struct together with its type arguments, as used by bytecode.
#[derive(Debug)]
pub struct StructDefInstantiation {
    /// Index into the struct definition table.
    pub def: usize,
    /// Index into the signature table: the type argument list.
    pub type_parameters: usize,
}

/// A generic function together with its type arguments, as used by bytecode.
#[derive(Debug)]
pub struct FunctionInstDef {
    /// Index into the function handle table.
    pub handle: usize,
    /// Index into the signature table: the type argument list.
    pub type_parameters: usize,
}

/// A field of a declared struct, as used by bytecode.
#[derive(Debug)]
pub struct FieldHandleDef {
    /// Index into the struct definition table.
    pub owner: usize,
    /// The field's position in the struct.
    pub field: usize,
}

/// A field of a struct instantiation, as used by bytecode.
#[derive(Debug)]
pub struct FieldInstDef {
    /// Index into the field handle table.
    pub handle: usize,
}

/// One bytecode instruction.  The loader only inspects the vector-family
/// instructions, which carry a signature index naming their element type;
/// every other instruction is carried through unexamined.
#[derive(Debug)]
pub enum Bytecode {
    VecPack(usize, u64),
    VecLen(usize),
    VecImmBorrow(usize),
    VecMutBorrow(usize),
    VecPushBack(usize),
    VecPopBack(usize),
    VecUnpack(usize, u64),
    VecSwap(usize),
    Other,
}

impl Bytecode {
    /// The signature index of a vector-family instruction.
    pub open spec fn spec_vec_sig(self) -> Option<usize> {
        match self {
            Bytecode::VecPack(si, _) => Some(si),
            Bytecode::VecLen(si) => Some(si),
            Bytecode::VecImmBorrow(si) => Some(si),
            Bytecode::VecMutBorrow(si) => Some(si),
            Bytecode::VecPushBack(si) => Some(si),
            Bytecode::VecPopBack(si) => Some(si),
            Bytecode::VecUnpack(si, _) => Some(si),
            Bytecode::VecSwap(si) => Some(si),
            Bytecode::Other => None,
        }
    }

    /// The signature index of a vector-family instruction.
    pub fn vec_sig(&self) -> (r: Option<usize>)
        ensures
            r == self.spec_vec_sig(),
    {
        match self {
            Bytecode::VecPack(si, _) => Some(*si),
            Bytecode::VecLen(si) => Some(*si),
            Bytecode::VecImmBorrow(si) => Some(*si),
            Bytecode::VecMutBorrow(si) => Some(*si),
            Bytecode::VecPushBack(si) => Some(*si),
            Bytecode::VecPopBack(si) => Some(*si),
            Bytecode::VecUnpack(si, _) => Some(*si),
            Bytecode::VecSwap(si) => Some(*si),
            Bytecode::Other => None,
        }
    }
}

/// The body of a function.
#[derive(Debug)]
pub struct CodeUnit {
    /// Index into the signature table: the declared locals.
    pub locals: usize,
    /// The instructions.
    pub code: Vec<Bytecode>,
}

/// A function declared by the module.
#[derive(Debug)]
pub struct FunctionDef {
    /// Index into the function handle table.
    pub function: usize,
    /// Whether the function is bound to a host callback.
    pub is_native: bool,
    /// The body; native functions have none.
    pub code: Option<CodeUnit>,
}

/// A constant from the constant pool.
#[derive(Debug)]
pub struct Constant {
    /// The constant's type.
    pub type_: SignatureToken,
    /// Its serialized value.
    pub data: Vec<u8>,
}

/// The signature indices named by a code unit are below `n_sigs`.
pub open spec fn code_unit_wf(c: CodeUnit, n_sigs: int) -> bool {
    &&& c.locals < n_sigs
    &&& forall|i: int|
        0 <= i < c.code@.len() ==> match (#[trigger] c.code@[i]).spec_vec_sig() {
            Some(si) => si < n_sigs,
            None => true,
        }
}

/// Decides [`code_unit_wf`].
#[verifier::loop_isolation(false)]
pub fn code_unit_check(c: &CodeUnit, n_sigs: usize) -> (r: bool)
    ensures
        r <==> code_unit_wf(*c, n_sigs as int),
{
    if c.locals >= n_sigs {
        return false;
    }
    let mut i: usize = 0;
    while i < c.code.len()
        invariant
            0 <= i <= c.code@.len(),
            forall|j: int|
                0 <= j < i ==> match (#[trigger] c.code@[j]).spec_vec_sig() {
                    Some(si) => si < n_sigs as int,
                    None => true,
                },
        decreases c.code@.len() - i,
    {
        match c.code[i].vec_sig() {
            Some(si) => {
                if si >= n_sigs {
                    return false;
                }
            }
            None => {}
        }
        i = i + 1;
    }
    true
}

/// A deserialized module: the tables the loader reads.
#[derive(Debug)]
pub struct ModuleCode {
    /// The binary format version the module was serialized with.
    pub version: u32,
    /// Index into `module_handles`: which handle names this module itself.
    pub self_module: usize,
    /// Every module this one refers to, itself included.
    pub module_handles: Vec<ModuleId>,
    /// Every struct this module refers to.
    pub struct_handles: Vec<StructHandle>,
    /// Every function this module refers to.
    pub function_handles: Vec<FunctionHandle>,
    /// The structs this module declares.
    pub struct_defs: Vec<StructDef>,
    /// The functions this module declares.
    pub function_defs: Vec<FunctionDef>,
    /// The struct instantiations its bytecode uses.
    pub struct_def_instantiations: Vec<StructDefInstantiation>,
    /// The function instantiations its bytecode uses.
    pub function_instantiations: Vec<FunctionInstDef>,
    /// The fields its bytecode touches.
    pub field_handles: Vec<FieldHandleDef>,
    /// The instantiated fields its bytecode touches.
    pub field_instantiations: Vec<FieldInstDef>,
    /// The signature table: lists of tokens named by index from elsewhere.
    pub signatures: Vec<Vec<SignatureToken>>,
    /// The constant pool.
    pub constants: Vec<Constant>,
    /// The modules this one declares as friends.
    pub friends: Vec<ModuleId>,
}

impl ModuleCode {
    /// Every cross-table index of the module is in bounds, and no declared
    /// struct has more fields than a field count can carry.
    pub open spec fn wf(self) -> bool {
        &&& self.self_module < self.module_handles@.len()
        &&& forall|i: int|
            0 <= i < self.struct_handles@.len() ==> (#[trigger] self.struct_handles@[i]).module
                < self.module_handles@.len()
        &&& forall|i: int|
            0 <= i < self.function_handles@.len() ==> {
                let h = #[trigger] self.function_handles@[i];
                h.module < self.module_handles@.len() && h.parameters < self.signatures@.len()
                    && h.return_ < self.signatures@.len()
            }
        &&& forall|i: int|
            0 <= i < self.struct_defs@.len() ==> {
                let d = #[trigger] self.struct_defs@[i];
                &&& d.struct_handle < self.struct_handles@.len()
                &&& self.module_handles@[self.struct_handles@[d.struct_handle as int].module as int]@
                    == self.module_handles@[self.self_module as int]@
                &&& match d.field_information {
                    StructFieldInformation::Native => true,
                    StructFieldInformation::Declared(fs) => fs@.len() <= 0xFFFF && tokens_wf(
                        fs@,
                        self.struct_handles@.len() as int,
                    ),
                }
            }
        &&& forall|i: int|
            0 <= i < self.function_defs@.len() ==> {
                let d = #[trigger] self.function_defs@[i];
                &&& d.function < self.function_handles@.len()
                &&& self.module_handles@[self.function_handles@[d.function as int].module as int]@
                    == self.module_handles@[self.self_module as int]@
                &&& match d.code {
                    Some(c) => code_unit_wf(c, self.signatures@.len() as int),
                    None => true,
                }
            }
        &&& forall|i: int|
            0 <= i < self.struct_def_instantiations@.len() ==> {
                let s = #[trigger] self.struct_def_instantiations@[i];
                s.def < self.struct_defs@.len() && s.type_parameters < self.signatures@.len()
            }
        &&& forall|i: int|
            0 <= i < self.function_instantiations@.len() ==> {
                let f = #[trigger] self.function_instantiations@[i];
                f.handle < self.function_handles@.len() && f.type_parameters
                    < self.signatures@.len()
            }
        &&& forall|i: int|
            0 <= i < self.field_handles@.len() ==> (#[trigger] self.field_handles@[i]).owner
                < self.struct_defs@.len()
        &&& forall|i: int|
            0 <= i < self.field_instantiations@.len()
                ==> (#[trigger] self.field_instantiations@[i]).handle
                < self.field_handles@.len()
        &&& forall|i: int|
            0 <= i < self.signatures@.len() ==> {
                let s = #[trigger] self.signatures@[i];
                s@.len() <= 0xFFFF && tokens_wf(s@, self.struct_handles@.len() as int)
            }
    }

    /// The identity this module claims for itself.
    pub open spec fn spec_self_id(self) -> crate::ids::ModuleIdV
        recommends
            self.wf(),
    {
        self.module_handles@[self.self_module as int]@
    }

    /// The identity this module claims for itself.
    pub fn self_id(&self) -> (r: &ModuleId)
        requires
            self.wf(),
        ensures
            r@ == self.spec_self_id(),
    {
        &self.module_handles[self.self_module]
    }

    /// The modules this one refers to, besides itself: its immediate
    /// dependencies.
    #[verifier::rlimit(50)]
    #[verifier::loop_isolation(false)]
    pub fn immediate_dependencies(&self) -> (r: Vec<ModuleId>)
        requires
            self.wf(),
        ensures
            forall|i: int|
                0 <= i < r@.len() ==> (#[trigger] r@[i])@ != self.spec_self_id() && exists|j: int|
                    0 <= j < self.module_handles@.len() && self.module_handles@[j]@ == r@[i]@,
            forall|j: int|
                0 <= j < self.module_handles@.len() && (#[trigger] self.module_handles@[j])@
                    != self.spec_self_id() ==> exists|i: int| 0 <= i < r@.len() && r@[i]@
                    == self.module_handles@[j]@,
    {
        let self_idx = self.self_module;
        let mut r: Vec<ModuleId> = Vec::new();
        let mut i: usize = 0;
        while i < self.module_handles.len()
            invariant
                self.wf(),
                self_idx == self.self_module,
                0 <= i <= self.module_handles@.len(),
                forall|k: int|
                    0 <= k < r@.len() ==> (#[trigger] r@[k])@ != self.spec_self_id() && exists|
                        j: int,
                    | 0 <= j < i && self.module_handles@[j]@ == r@[k]@,
                forall|j: int|
                    0 <= j < i && (#[trigger] self.module_handles@[j])@ != self.spec_self_id()
                        ==> exists|k: int| 0 <= k < r@.len() && r@[k]@
                        == self.module_handles@[j]@,
            decreases self.module_handles@.len() - i,
        {
            let ghost r_before = r@;
            let h = &self.module_handles[i];
            if !h.id_eq(&self.module_handles[self_idx]) {
                let d = h.duplicate();
                r.push(d);
                proof {
                    assert(r@[r@.len() - 1]@ == self.module_handles@[i as int]@);
                    assert forall|k: int|
                        0 <= k < r@.len() implies (#[trigger] r@[k])@ != self.spec_self_id()
                        && exists|j: int|
                        0 <= j < i + 1 && self.module_handles@[j]@ == r@[k]@ by {
                        if k < r@.len() - 1 {
                            assert(r_before[k] == r@[k]);
                            let j = choose|j: int|
                                0 <= j < i && self.module_handles@[j]@ == r_before[k]@;
                            assert(0 <= j < i + 1 && self.module_handles@[j]@ == r@[k]@);
                        } else {
                            assert(self.module_handles@[i as int]@ == r@[k]@);
                        }
                    }
                    assert forall|j: int|
                        0 <= j < i + 1 && (#[trigger] self.module_handles@[j])@
                            != self.spec_self_id() implies exists|k: int|
                        0 <= k < r@.len() && r@[k]@ == self.module_handles@[j]@ by {
                        if j < i {
                            let k = choose|k: int|
                                0 <= k < r_before.len() && r_before[k]@
                                    == self.module_handles@[j]@;
                            assert(r@[k]@ == self.module_handles@[j]@);
                        } else {
                            assert(r@[r@.len() - 1]@ == self.module_handles@[j]@);
                        }
                    }
                }
            } else {
                proof {
                    assert(self.module_handles@[i as int]@ == self.spec_self_id());
                    assert forall|j: int|
                        0 <= j < i + 1 && (#[trigger] self.module_handles@[j])@
                            != self.spec_self_id() implies exists|k: int|
                        0 <= k < r@.len() && r@[k]@ == self.module_handles@[j]@ by {
                        assert(j < i);
                    }
                }
            }
            i = i + 1;
        }
        r
    }

    /// Decides [`ModuleCode::wf`].
    #[verifier::loop_isolation(false)]
    pub fn check(&self) -> (r: bool)
        ensures
            r <==> self.wf(),
    {
        let n_mh = self.module_handles.len();
        let n_sh = self.struct_handles.len();
        let n_fh = self.function_handles.len();
        let n_sd = self.struct_defs.len();
        let n_sig = self.signatures.len();
        if self.self_module >= n_mh {
            return false;
        }
        let mut i: usize = 0;
        while i < self.struct_handles.len()
            invariant
                0 <= i <= self.struct_handles@.len(),
                n_mh == self.module_handles@.len(),
                forall|j: int|
                    0 <= j < i ==> (#[trigger] self.struct_handles@[j]).module < n_mh as int,
            decreases self.struct_handles@.len() - i,
        {
            if self.struct_handles[i].module >= n_mh {
                return false;
            }
            i = i + 1;
        }
        let mut i: usize = 0;
        while i < self.function_handles.len()
            invariant
                0 <= i <= self.function_handles@.len(),
                n_mh == self.module_handles@.len(),
                n_sig == self.signatures@.len(),
                forall|j: int|
                    0 <= j < i ==> {
                        let h = #[trigger] self.function_handles@[j];
                        h.module < n_mh as int && h.parameters < n_sig as int && h.return_
                            < n_sig as int
                    },
            decreases self.function_handles@.len() - i,
        {
            let h = &self.function_handles[i];
            if h.module >= n_mh || h.parameters >= n_sig || h.return_ >= n_sig {
                return false;
            }
            i = i + 1;
        }
        let mut i: usize = 0;
        while i < self.struct_defs.len()
            invariant
                0 <= i <= self.struct_defs@.len(),
                n_sh == self.struct_handles@.len(),
                n_mh == self.module_handles@.len(),
                self.self_module < n_mh,
                forall|j: int|
                    0 <= j < self.struct_handles@.len()
                        ==> (#[trigger] self.struct_handles@[j]).module < n_mh as int,
                forall|j: int|
                    0 <= j < i ==> {
                        let d = #[trigger] self.struct_defs@[j];
                        &&& d.struct_handle < n_sh as int
                        &&& self.module_handles@[self.struct_handles@[
                            d.struct_handle as int
                        ].module as int]@ == self.spec_self_id()
                        &&& match d.field_information {
                            StructFieldInformation::Native => true,
                            StructFieldInformation::Declared(fs) => fs@.len() <= 0xFFFF
                                && tokens_wf(fs@, n_sh as int),
                        }
                    },
            decreases self.struct_defs@.len() - i,
        {
            let d = &self.struct_defs[i];
            if d.struct_handle >= n_sh {
                return false;
            }
            if !self.module_handles[self.struct_handles[d.struct_handle].module].id_eq(
                &self.module_handles[self.self_module],
            ) {
                return false;
            }
            match &d.field_information {
                StructFieldInformation::Native => {}
                StructFieldInformation::Declared(fs) => {
                    if fs.len() > 0xFFFF {
                        return false;
                    }
                    if !tokens_check(fs, n_sh) {
                        return false;
                    }
                }
            }
            i = i + 1;
        }
        let mut i: usize = 0;
        while i < self.function_defs.len()
            invariant
                0 <= i <= self.function_defs@.len(),
                n_fh == self.function_handles@.len(),
                n_sig == self.signatures@.len(),
                n_mh == self.module_handles@.len(),
                self.self_module < n_mh,
                forall|j: int|
                    0 <= j < self.function_handles@.len() ==> (
                    #[trigger] self.function_handles@[j]).module < n_mh as int,
                forall|j: int|
                    0 <= j < i ==> {
                        let d = #[trigger] self.function_defs@[j];
                        &&& d.function < n_fh as int
                        &&& self.module_handles@[self.function_handles@[
                            d.function as int
                        ].module as int]@ == self.spec_self_id()
                        &&& match d.code {
                            Some(c) => code_unit_wf(c, n_sig as int),
                            None => true,
                        }
                    },
            decreases self.function_defs@.len() - i,
        {
            let d = &self.function_defs[i];
            if d.function >= n_fh {
                return false;
            }
            if !self.module_handles[self.function_handles[d.function].module].id_eq(
                &self.module_handles[self.self_module],
            ) {
                return false;
            }
            match &d.code {
                Some(c) => {
                    if !code_unit_check(c, n_sig) {
                        return false;
                    }
                }
                None => {}
            }
            i = i + 1;
        }
        let mut i: usize = 0;
        while i < self.struct_def_instantiations.len()
            invariant
                0 <= i <= self.struct_def_instantiations@.len(),
                n_sd == self.struct_defs@.len(),
                n_sig == self.signatures@.len(),
                forall|j: int|
                    0 <= j < i ==> {
                        let s = #[trigger] self.struct_def_instantiations@[j];
                        s.def < n_sd as int && s.type_parameters < n_sig as int
                    },
            decreases self.struct_def_instantiations@.len() - i,
        {
            let s = &self.struct_def_instantiations[i];
            if s.def >= n_sd || s.type_parameters >= n_sig {
                return false;
            }
            i = i + 1;
        }
        let mut i: usize = 0;
        while i < self.function_instantiations.len()
            invariant
                0 <= i <= self.function_instantiations@.len(),
                n_fh == self.function_handles@.len(),
                n_sig == self.signatures@.len(),
                forall|j: int|
                    0 <= j < i ==> {
                        let f = #[trigger] self.function_instantiations@[j];
                        f.handle < n_fh as int && f.type_parameters < n_sig as int
                    },
            decreases self.function_instantiations@.len() - i,
        {
            let f = &self.function_instantiations[i];
            if f.handle >= n_fh || f.type_parameters >= n_sig {
                return false;
            }
            i = i + 1;
        }
        let mut i: usize = 0;
        while i < self.field_handles.len()
            invariant
                0 <= i <= self.field_handles@.len(),
                n_sd == self.struct_defs@.len(),
                forall|j: int|
                    0 <= j < i ==> (#[trigger] self.field_handles@[j]).owner < n_sd as int,
            decreases self.field_handles@.len() - i,
        {
            if self.field_handles[i].owner >= n_sd {
                return false;
            }
            i = i + 1;
        }
        let n_fhd = self.field_handles.len();
        let mut i: usize = 0;
        while i < self.field_instantiations.len()
            invariant
                0 <= i <= self.field_instantiations@.len(),
                n_fhd == self.field_handles@.len(),
                forall|j: int|
                    0 <= j < i ==> (#[trigger] self.field_instantiations@[j]).handle
                        < n_fhd as int,
            decreases self.field_instantiations@.len() - i,
        {
            if self.field_instantiations[i].handle >= n_fhd {
                return false;
            }
            i = i + 1;
        }
        let mut i: usize = 0;
        while i < self.signatures.len()
            invariant
                0 <= i <= self.signatures@.len(),
                n_sh == self.struct_handles@.len(),
                forall|j: int|
                    0 <= j < i ==> {
                        let s = #[trigger] self.signatures@[j];
                        s@.len() <= 0xFFFF && tokens_wf(s@, n_sh as int)
                    },
            decreases self.signatures@.len() - i,
        {
            if self.signatures[i].len() > 0xFFFF {
                return false;
            }
            if !tokens_check(&self.signatures[i], n_sh) {
                return false;
            }
            i = i + 1;
        }
        true
    }
}

/// A deserialized script: a single entry point plus the tables its bytecode
/// needs.
#[derive(Debug)]
pub struct ScriptCode {
    /// The binary format version the script was serialized with.
    pub version: u32,
    /// Every module the script refers to.
    pub module_handles: Vec<ModuleId>,
    /// Every struct the script refers to.
    pub struct_handles: Vec<StructHandle>,
    /// Every function the script refers to.
    pub function_handles: Vec<FunctionHandle>,
    /// The function instantiations its bytecode uses.
    pub function_instantiations: Vec<FunctionInstDef>,
    /// The signature table.
    pub signatures: Vec<Vec<SignatureToken>>,
    /// The constant pool.
    pub constants: Vec<Constant>,
    /// The ability constraints of the entry point's type parameters.
    pub type_parameters: Vec<AbilitySet>,
    /// Index into the signature table: the entry point's parameter list.
    pub parameters: usize,
    /// The entry point's body.
    pub code: CodeUnit,
}

impl ScriptCode {
    /// Every cross-table index of the script is in bounds.
    pub open spec fn wf(self) -> bool {
        &&& forall|i: int|
            0 <= i < self.struct_handles@.len() ==> (#[trigger] self.struct_handles@[i]).module
                < self.module_handles@.len()
        &&& forall|i: int|
            0 <= i < self.function_handles@.len() ==> {
                let h = #[trigger] self.function_handles@[i];
                h.module < self.module_handles@.len() && h.parameters < self.signatures@.len()
                    && h.return_ < self.signatures@.len()
            }
        &&& forall|i: int|
            0 <= i < self.function_instantiations@.len() ==> {
                let f = #[trigger] self.function_instantiations@[i];
                f.handle < self.function_handles@.len() && f.type_parameters
                    < self.signatures@.len()
            }
        &&& forall|i: int|
            0 <= i < self.signatures@.len() ==> {
                let s = #[trigger] self.signatures@[i];
                s@.len() <= 0xFFFF && tokens_wf(s@, self.struct_handles@.len() as int)
            }
        &&& self.parameters < self.signatures@.len()
        &&& code_unit_wf(self.code, self.signatures@.len() as int)
    }

    /// Decides [`ScriptCode::wf`].
    #[verifier::loop_isolation(false)]
    pub fn check(&self) -> (r: bool)
        ensures
            r <==> self.wf(),
    {
        let n_mh = self.module_handles.len();
        let n_sh = self.struct_handles.len();
        let n_fh = self.function_handles.len();
        let n_sig = self.signatures.len();
        let mut i: usize = 0;
        while i < self.struct_handles.len()
            invariant
                0 <= i <= self.struct_handles@.len(),
                n_mh == self.module_handles@.len(),
                forall|j: int|
                    0 <= j < i ==> (#[trigger] self.struct_handles@[j]).module < n_mh as int,
            decreases self.struct_handles@.len() - i,
        {
            if self.struct_handles[i].module >= n_mh {
                return false;
            }
            i = i + 1;
        }
        let mut i: usize = 0;
        while i < self.function_handles.len()
            invariant
                0 <= i <= self.function_handles@.len(),
                n_mh == self.module_handles@.len(),
                n_sig == self.signatures@.len(),
                forall|j: int|
                    0 <= j < i ==> {
                        let h = #[trigger] self.function_handles@[j];
                        h.module < n_mh as int && h.parameters < n_sig as int && h.return_
                            < n_sig as int
                    },
            decreases self.function_handles@.len() - i,
        {
            let h = &self.function_handles[i];
            if h.module >= n_mh || h.parameters >= n_sig || h.return_ >= n_sig {
                return false;
            }
            i = i + 1;
        }
        let mut i: usize = 0;
        while i < self.function_instantiations.len()
            invariant
                0 <= i <= self.function_instantiations@.len(),
                n_fh == self.function_handles@.len(),
                n_sig == self.signatures@.len(),
                forall|j: int|
                    0 <= j < i ==> {
                        let f = #[trigger] self.function_instantiations@[j];
                        f.handle < n_fh as int && f.type_parameters < n_sig as int
                    },
            decreases self.function_instantiations@.len() - i,
        {
            let f = &self.function_instantiations[i];
            if f.handle >= n_fh || f.type_parameters >= n_sig {
                return false;
            }
            i = i + 1;
        }
        let mut i: usize = 0;
        while i < self.signatures.len()
            invariant
                0 <= i <= self.signatures@.len(),
                n_sh == self.struct_handles@.len(),
                forall|j: int|
                    0 <= j < i ==> {
                        let s = #[trigger] self.signatures@[j];
                        s@.len() <= 0xFFFF && tokens_wf(s@, n_sh as int)
                    },
            decreases self.signatures@.len() - i,
        {
            if self.signatures[i].len() > 0xFFFF {
                return false;
            }
            if !tokens_check(&self.signatures[i], n_sh) {
                return false;
            }
            i = i + 1;
        }
        if self.parameters >= n_sig {
            return false;
        }
        if !code_unit_check(&self.code, n_sig) {
            return false;
        }
        true
    }
}

} // verus!
