//! Derived-type artifacts: the externally visible tag and the serialization
//! layout of a runtime type, memoized per (struct, type-argument vector).

use vstd::prelude::*;

use crate::errors::StatusCode;
use crate::ids::clone_bytes;
use crate::module_cache::{ModuleCache, StructType};
use crate::runtime_types::{
    duplicate_types, lemma_type_views, subst_v, type_views, types_eq, Type, TypeV,
};

verus! {

broadcast use vstd::std_specs::vec::group_vec_axioms;

/// An externally visible, name-based encoding of a concrete type.
#[derive(Debug)]
pub enum TypeTag {
    Bool,
    U8,
    U64,
    U128,
    Address,
    Signer,
    Vector(Box<TypeTag>),
    Struct(Box<StructTag>),
}

/// The name-based encoding of a concrete struct type.
#[derive(Debug)]
pub struct StructTag {
    pub address: Vec<u8>,
    pub module: Vec<u8>,
    pub name: Vec<u8>,
    pub type_params: Vec<TypeTag>,
}

/// The mathematical value of a [`TypeTag`].
pub enum TagV {
    Bool,
    U8,
    U64,
    U128,
    Address,
    Signer,
    Vector(Box<TagV>),
    Struct(Box<StructTagV>),
}

/// The mathematical value of a [`StructTag`].
pub struct StructTagV {
    pub address: Seq<u8>,
    pub module: Seq<u8>,
    pub name: Seq<u8>,
    pub type_params: Seq<TagV>,
}

/// The mathematical value of a [`TypeTag`].
pub open spec fn tag_view(t: TypeTag) -> TagV
    decreases t, 1int,
{
    match t {
        TypeTag::Bool => TagV::Bool,
        TypeTag::U8 => TagV::U8,
        TypeTag::U64 => TagV::U64,
        TypeTag::U128 => TagV::U128,
        TypeTag::Address => TagV::Address,
        TypeTag::Signer => TagV::Signer,
        TypeTag::Vector(inner) => TagV::Vector(Box::new(tag_view(*inner))),
        TypeTag::Struct(st) => TagV::Struct(Box::new(struct_tag_view(*st))),
    }
}

/// The mathematical value of a [`StructTag`].
pub open spec fn struct_tag_view(st: StructTag) -> StructTagV
    decreases st, 0int,
{
    StructTagV {
        address: st.address@,
        module: st.module@,
        name: st.name@,
        type_params: tag_views(st.type_params@),
    }
}

/// The views of a sequence of tags, element by element.
pub open spec fn tag_views(ts: Seq<TypeTag>) -> Seq<TagV>
    decreases ts, 2int,
{
    if ts.len() == 0 {
        Seq::empty()
    } else {
        tag_views(ts.drop_last()).push(tag_view(ts.last()))
    }
}

impl View for TypeTag {
    type V = TagV;

    open spec fn view(&self) -> TagV {
        tag_view(*self)
    }
}

impl View for StructTag {
    type V = StructTagV;

    open spec fn view(&self) -> StructTagV {
        struct_tag_view(*self)
    }
}

/// `tag_views` maps the view over the sequence, element by element.
pub proof fn lemma_tag_views(ts: Seq<TypeTag>)
    ensures
        tag_views(ts).len() == ts.len(),
        forall|i: int| 0 <= i < ts.len() ==> #[trigger] tag_views(ts)[i] == ts[i]@,
    decreases ts,
{
    if ts.len() > 0 {
        lemma_tag_views(ts.drop_last());
        assert forall|i: int| 0 <= i < ts.len() implies #[trigger] tag_views(ts)[i] == ts[i]@ by {
            if i < ts.len() - 1 {
                assert(ts.drop_last()[i] == ts[i]);
                assert(tag_views(ts)[i] == tag_views(ts.drop_last())[i]);
            } else {
                assert(ts.last() == ts[i]);
            }
        }
    }
}

/// Whether a runtime type has a tag: it contains no reference or type
/// parameter, and every struct index it names is inside the table.
pub open spec fn taggable(structs: Seq<StructType>, t: TypeV) -> bool
    decreases t,
{
    match t {
        TypeV::Vector(inner) => taggable(structs, *inner),
        TypeV::Struct(g) => 0 <= g < structs.len(),
        TypeV::StructInstantiation(g, args) => 0 <= g < structs.len() && forall|i: int|
            0 <= i < args.len() ==> taggable(structs, #[trigger] args[i]),
        TypeV::Reference(_) => false,
        TypeV::MutableReference(_) => false,
        TypeV::TyParam(_) => false,
        _ => true,
    }
}

/// `tag` is the externally visible tag of the runtime type `t` relative to
/// a struct table: primitives map one to one, a vector wraps its element's
/// tag, and a struct's tag carries the declaring module's address and name,
/// the struct's name, and the tags of the type arguments.
pub open spec fn tag_rel(structs: Seq<StructType>, t: TypeV, tag: TagV) -> bool
    decreases tag, 1int,
{
    match t {
        TypeV::Bool => tag == TagV::Bool,
        TypeV::U8 => tag == TagV::U8,
        TypeV::U64 => tag == TagV::U64,
        TypeV::U128 => tag == TagV::U128,
        TypeV::Address => tag == TagV::Address,
        TypeV::Signer => tag == TagV::Signer,
        TypeV::Vector(inner) => tag matches TagV::Vector(ti) && tag_rel(structs, *inner, *ti),
        TypeV::Struct(g) => tag matches TagV::Struct(st) && struct_tag_rel(
            structs,
            g,
            Seq::empty(),
            *st,
        ),
        TypeV::StructInstantiation(g, args) => tag matches TagV::Struct(st) && struct_tag_rel(
            structs,
            g,
            args,
            *st,
        ),
        _ => false,
    }
}

/// `st` is the tag of the struct at global index `g` instantiated with
/// `args`.
pub open spec fn struct_tag_rel(
    structs: Seq<StructType>,
    g: int,
    args: Seq<TypeV>,
    st: StructTagV,
) -> bool
    decreases st, 0int,
{
    &&& 0 <= g < structs.len()
    &&& st.address == structs[g].module.address@
    &&& st.module == structs[g].module.name@
    &&& st.name == structs[g].name@
    &&& st.type_params.len() == args.len()
    &&& forall|i: int|
        0 <= i < args.len() ==> tag_rel(structs, args[i], #[trigger] st.type_params[i])
}

/// A struct tag stays that struct's tag when the table grows.
pub proof fn lemma_tag_rel_grows_table(
    structs1: Seq<StructType>,
    structs2: Seq<StructType>,
    t: TypeV,
    tag: TagV,
)
    requires
        structs1.is_prefix_of(structs2),
        tag_rel(structs1, t, tag),
    ensures
        tag_rel(structs2, t, tag),
    decreases tag, 1int,
{
    match t {
        TypeV::Vector(inner) => {
            lemma_tag_rel_grows_table(structs1, structs2, *inner, *tag->Vector_0);
        }
        TypeV::Struct(g) => {
            lemma_struct_tag_rel_grows_table(structs1, structs2, g, Seq::empty(), *tag->Struct_0);
        }
        TypeV::StructInstantiation(g, args) => {
            lemma_struct_tag_rel_grows_table(structs1, structs2, g, args, *tag->Struct_0);
        }
        _ => {}
    }
}

/// A struct's tag stays its tag when the table grows.
pub proof fn lemma_struct_tag_rel_grows_table(
    structs1: Seq<StructType>,
    structs2: Seq<StructType>,
    g: int,
    args: Seq<TypeV>,
    st: StructTagV,
)
    requires
        structs1.is_prefix_of(structs2),
        struct_tag_rel(structs1, g, args, st),
    ensures
        struct_tag_rel(structs2, g, args, st),
    decreases st, 0int,
{
    assert(structs2[g] == structs1[g]);
    assert forall|i: int| 0 <= i < args.len() implies tag_rel(
        structs2,
        args[i],
        #[trigger] st.type_params[i],
    ) by {
        lemma_tag_rel_grows_table(structs1, structs2, args[i], st.type_params[i]);
    }
}

/// A recursive structural description of a value, used by serialization.
#[derive(Debug)]
pub enum TypeLayout {
    Bool,
    U8,
    U64,
    U128,
    Address,
    Signer,
    Vector(Box<TypeLayout>),
    Struct(Vec<TypeLayout>),
}

/// The mathematical value of a [`TypeLayout`].
pub enum LayoutV {
    Bool,
    U8,
    U64,
    U128,
    Address,
    Signer,
    Vector(Box<LayoutV>),
    Struct(Seq<LayoutV>),
}

/// The mathematical value of a [`TypeLayout`].
pub open spec fn layout_view(l: TypeLayout) -> LayoutV
    decreases l,
{
    match l {
        TypeLayout::Bool => LayoutV::Bool,
        TypeLayout::U8 => LayoutV::U8,
        TypeLayout::U64 => LayoutV::U64,
        TypeLayout::U128 => LayoutV::U128,
        TypeLayout::Address => LayoutV::Address,
        TypeLayout::Signer => LayoutV::Signer,
        TypeLayout::Vector(inner) => LayoutV::Vector(Box::new(layout_view(*inner))),
        TypeLayout::Struct(fs) => LayoutV::Struct(layout_views(fs@)),
    }
}

/// The views of a sequence of layouts, element by element.
pub open spec fn layout_views(ls: Seq<TypeLayout>) -> Seq<LayoutV>
    decreases ls,
{
    if ls.len() == 0 {
        Seq::empty()
    } else {
        layout_views(ls.drop_last()).push(layout_view(ls.last()))
    }
}

impl View for TypeLayout {
    type V = LayoutV;

    open spec fn view(&self) -> LayoutV {
        layout_view(*self)
    }
}

/// `layout_views` maps the view over the sequence, element by element.
pub proof fn lemma_layout_views(ls: Seq<TypeLayout>)
    ensures
        layout_views(ls).len() == ls.len(),
        forall|i: int| 0 <= i < ls.len() ==> #[trigger] layout_views(ls)[i] == ls[i]@,
    decreases ls,
{
    if ls.len() > 0 {
        lemma_layout_views(ls.drop_last());
        assert forall|i: int| 0 <= i < ls.len() implies #[trigger] layout_views(ls)[i]
            == ls[i]@ by {
            if i < ls.len() - 1 {
                assert(ls.drop_last()[i] == ls[i]);
                assert(layout_views(ls)[i] == layout_views(ls.drop_last())[i]);
            } else {
                assert(ls.last() == ls[i]);
            }
        }
    }
}

/// `l` is the layout of the runtime type `t` relative to a struct table:
/// primitive types map one to one, a vector wraps its element's layout, and
/// a struct's layout lists the layouts of its (instantiated) field types.
/// References and type parameters have no layout.
pub open spec fn layout_rel(structs: Seq<StructType>, t: TypeV, l: LayoutV) -> bool
    decreases l, 1int,
{
    match t {
        TypeV::Bool => l == LayoutV::Bool,
        TypeV::U8 => l == LayoutV::U8,
        TypeV::U64 => l == LayoutV::U64,
        TypeV::U128 => l == LayoutV::U128,
        TypeV::Address => l == LayoutV::Address,
        TypeV::Signer => l == LayoutV::Signer,
        TypeV::Vector(inner) => l matches LayoutV::Vector(li) && layout_rel(structs, *inner, *li),
        TypeV::Struct(g) => struct_layout_rel(structs, g, Seq::empty(), l),
        TypeV::StructInstantiation(g, args) => struct_layout_rel(structs, g, args, l),
        _ => false,
    }
}

/// `l` is the layout of the struct at global index `g`, instantiated with
/// `args`.
pub open spec fn struct_layout_rel(
    structs: Seq<StructType>,
    g: int,
    args: Seq<TypeV>,
    l: LayoutV,
) -> bool
    decreases l, 0int,
{
    &&& 0 <= g < structs.len()
    &&& l matches LayoutV::Struct(fls)
    &&& (l matches LayoutV::Struct(fls) ==> {
        let fields = type_views(structs[g].fields@);
        &&& fls.len() == fields.len()
        &&& forall|i: int|
            0 <= i < fields.len() ==> layout_rel(
                structs,
                subst_v(fields[i], args),
                #[trigger] fls[i],
            )
    })
}

/// A type has at most one layout relative to a struct table.
pub proof fn lemma_layout_unique(structs: Seq<StructType>, t: TypeV, l1: LayoutV, l2: LayoutV)
    requires
        layout_rel(structs, t, l1),
        layout_rel(structs, t, l2),
    ensures
        l1 == l2,
    decreases l1, 1int,
{
    match t {
        TypeV::Vector(inner) => {
            lemma_layout_unique(structs, *inner, *l1->Vector_0, *l2->Vector_0);
        }
        TypeV::Struct(g) => {
            lemma_struct_layout_unique(structs, g, Seq::empty(), l1, l2);
        }
        TypeV::StructInstantiation(g, args) => {
            lemma_struct_layout_unique(structs, g, args, l1, l2);
        }
        _ => {}
    }
}

/// A struct instantiation has at most one layout.
pub proof fn lemma_struct_layout_unique(
    structs: Seq<StructType>,
    g: int,
    args: Seq<TypeV>,
    l1: LayoutV,
    l2: LayoutV,
)
    requires
        struct_layout_rel(structs, g, args, l1),
        struct_layout_rel(structs, g, args, l2),
    ensures
        l1 == l2,
    decreases l1, 0int,
{
    let fls1 = l1->Struct_0;
    let fls2 = l2->Struct_0;
    let fields = type_views(structs[g].fields@);
    assert forall|i: int| 0 <= i < fls1.len() implies #[trigger] fls1[i] == fls2[i] by {
        lemma_layout_unique(structs, subst_v(fields[i], args), fls1[i], fls2[i]);
    }
    assert(fls1 =~= fls2);
}

/// An owned copy of a layout.
#[verifier::loop_isolation(false)]
pub fn duplicate_layout(l: &TypeLayout) -> (r: TypeLayout)
    ensures
        r@ == l@,
    decreases *l,
{
    match l {
        TypeLayout::Bool => TypeLayout::Bool,
        TypeLayout::U8 => TypeLayout::U8,
        TypeLayout::U64 => TypeLayout::U64,
        TypeLayout::U128 => TypeLayout::U128,
        TypeLayout::Address => TypeLayout::Address,
        TypeLayout::Signer => TypeLayout::Signer,
        TypeLayout::Vector(inner) => TypeLayout::Vector(Box::new(duplicate_layout(inner))),
        TypeLayout::Struct(fs) => {
            let mut out: Vec<TypeLayout> = Vec::new();
            let mut i: usize = 0;
            while i < fs.len()
                invariant
                    0 <= i <= fs@.len(),
                    out@.len() == i,
                    forall|j: int| 0 <= j < i ==> (#[trigger] out@[j])@ == fs@[j]@,
                decreases fs@.len() - i,
            {
                let c = duplicate_layout(&fs[i]);
                out.push(c);
                i = i + 1;
            }
            proof {
                lemma_layout_views(out@);
                lemma_layout_views(fs@);
                assert(layout_views(out@) =~= layout_views(fs@));
            }
            TypeLayout::Struct(out)
        }
    }
}

/// The result of the depth-bounded layout computation, on a cache-free
/// reading: a layout, a depth overrun, or no layout at all.
pub enum LRes {
    Found(LayoutV),
    TooDeep,
    NoLayout,
}

/// The result of computing the layouts of a list of instantiated field
/// types, from position `i` on.
pub enum FRes {
    Vals(Seq<LayoutV>),
    TooDeep,
    NoLayout,
}

/// The depth-bounded layout of a type, computed without a memo table: what
/// a fresh loader computes.
pub open spec fn pure_layout(structs: Seq<StructType>, t: TypeV, depth: int) -> LRes
    decreases 130 - depth, 2int, 0int,
{
    if depth > 128 {
        LRes::TooDeep
    } else {
        match t {
            TypeV::Bool => LRes::Found(LayoutV::Bool),
            TypeV::U8 => LRes::Found(LayoutV::U8),
            TypeV::U64 => LRes::Found(LayoutV::U64),
            TypeV::U128 => LRes::Found(LayoutV::U128),
            TypeV::Address => LRes::Found(LayoutV::Address),
            TypeV::Signer => LRes::Found(LayoutV::Signer),
            TypeV::Vector(inner) => match pure_layout(structs, *inner, depth + 1) {
                LRes::Found(l) => LRes::Found(LayoutV::Vector(Box::new(l))),
                e => e,
            },
            TypeV::Struct(g) => pure_struct_layout(structs, g, Seq::empty(), depth),
            TypeV::StructInstantiation(g, args) => pure_struct_layout(structs, g, args, depth),
            _ => LRes::NoLayout,
        }
    }
}

/// The depth-bounded layout of a struct instantiation, memo free.
pub open spec fn pure_struct_layout(
    structs: Seq<StructType>,
    g: int,
    args: Seq<TypeV>,
    depth: int,
) -> LRes
    decreases 130 - depth, 1int, 0int,
{
    if !(0 <= g < structs.len()) || depth > 128 {
        LRes::NoLayout
    } else {
        match pure_fields(structs, type_views(structs[g].fields@), args, depth, 0) {
            FRes::Vals(ls) => LRes::Found(LayoutV::Struct(ls)),
            FRes::TooDeep => LRes::TooDeep,
            FRes::NoLayout => LRes::NoLayout,
        }
    }
}

/// The layouts of the instantiated field types from position `i` on, memo
/// free; the first failure decides.
pub open spec fn pure_fields(
    structs: Seq<StructType>,
    fields: Seq<TypeV>,
    args: Seq<TypeV>,
    depth: int,
    i: int,
) -> FRes
    decreases 130 - depth, 0int, fields.len() - i,
{
    if depth > 128 {
        FRes::TooDeep
    } else if i < 0 || i >= fields.len() {
        FRes::Vals(Seq::empty())
    } else if !crate::runtime_types::params_wf(fields[i], args.len() as int) {
        FRes::NoLayout
    } else {
        match pure_layout(structs, subst_v(fields[i], args), depth + 1) {
            LRes::Found(l) => match pure_fields(structs, fields, args, depth, i + 1) {
                FRes::Vals(ls) => FRes::Vals(seq![l] + ls),
                e => e,
            },
            LRes::TooDeep => FRes::TooDeep,
            LRes::NoLayout => FRes::NoLayout,
        }
    }
}

/// A field walk that yields values yields one layout per remaining field,
/// each the memo-free layout of its instantiated field type.
pub proof fn lemma_pure_fields_char(
    structs: Seq<StructType>,
    fields: Seq<TypeV>,
    args: Seq<TypeV>,
    depth: int,
    i: int,
)
    requires
        0 <= i <= fields.len(),
        depth <= 128,
    ensures
        pure_fields(structs, fields, args, depth, i) matches FRes::Vals(ls) ==> ls.len()
            == fields.len() - i && forall|k: int|
            i <= k < fields.len() ==> crate::runtime_types::params_wf(
                #[trigger] fields[k],
                args.len() as int,
            ) && pure_layout(structs, subst_v(fields[k], args), depth + 1) == LRes::Found(
                ls[k - i],
            ),
    decreases fields.len() - i,
{
    if i < fields.len() {
        lemma_pure_fields_char(structs, fields, args, depth, i + 1);
        if pure_fields(structs, fields, args, depth, i) is Vals {
            let ls = pure_fields(structs, fields, args, depth, i)->Vals_0;
            let child = pure_layout(structs, subst_v(fields[i], args), depth + 1);
            let rest = pure_fields(structs, fields, args, depth, i + 1);
            assert(child is Found && rest is Vals);
            let ls2 = rest->Vals_0;
            assert(ls == seq![child->Found_0] + ls2);
            assert forall|k: int|
                i <= k < fields.len() implies pure_layout(
                structs,
                subst_v(#[trigger] fields[k], args),
                depth + 1,
            ) == LRes::Found(ls[k - i]) by {
                if k > i {
                    assert(ls[k - i] == ls2[k - i - 1]);
                }
            }
        }
    }
}

/// A memo-free layout is a layout.
pub proof fn lemma_pure_layout_rel(structs: Seq<StructType>, t: TypeV, depth: int)
    ensures
        pure_layout(structs, t, depth) matches LRes::Found(l) ==> layout_rel(structs, t, l),
    decreases 130 - depth, 2int, 0int,
{
    if depth <= 128 {
        match t {
            TypeV::Vector(inner) => {
                lemma_pure_layout_rel(structs, *inner, depth + 1);
            }
            TypeV::Struct(g) => {
                lemma_pure_struct_layout_rel(structs, g, Seq::empty(), depth);
            }
            TypeV::StructInstantiation(g, args) => {
                lemma_pure_struct_layout_rel(structs, g, args, depth);
            }
            _ => {}
        }
    }
}

/// A memo-free struct layout is that struct's layout.
pub proof fn lemma_pure_struct_layout_rel(
    structs: Seq<StructType>,
    g: int,
    args: Seq<TypeV>,
    depth: int,
)
    ensures
        pure_struct_layout(structs, g, args, depth) matches LRes::Found(l) ==> struct_layout_rel(
            structs,
            g,
            args,
            l,
        ),
    decreases 130 - depth, 1int, 0int,
{
    if 0 <= g < structs.len() && depth <= 128 {
        let fields = type_views(structs[g].fields@);
        lemma_pure_fields_char(structs, fields, args, depth, 0);
        if pure_fields(structs, fields, args, depth, 0) is Vals {
            let ls = pure_fields(structs, fields, args, depth, 0)->Vals_0;
            assert forall|i: int| 0 <= i < fields.len() implies layout_rel(
                structs,
                subst_v(fields[i], args),
                #[trigger] ls[i],
            ) by {
                assert(pure_layout(structs, subst_v(fields[i], args), depth + 1) == LRes::Found(
                    ls[i - 0],
                ));
                lemma_pure_layout_rel(structs, subst_v(fields[i], args), depth + 1);
            }
        }
    }
}

/// Whether the memo table holds a layout for the struct at global index `g`
/// instantiated with `args`.
pub open spec fn tc_has_layout(
    entries: Seq<(usize, Vec<Type>, StructInfo)>,
    g: int,
    args: Seq<TypeV>,
) -> bool {
    exists|i: int|
        0 <= i < entries.len() && (#[trigger] entries[i]).0 == g && type_views(entries[i].1@)
            == args && entries[i].2.struct_layout is Some
}

/// Whether a layout request is served without any fresh struct computation:
/// the depth budget covers the type's spine and every struct node it reaches
/// is memoized.
pub open spec fn layout_hits(
    entries: Seq<(usize, Vec<Type>, StructInfo)>,
    t: TypeV,
    depth: int,
) -> bool
    decreases 130 - depth,
{
    &&& depth <= 128
    &&& match t {
        TypeV::Vector(inner) => layout_hits(entries, *inner, depth + 1),
        TypeV::Struct(g) => tc_has_layout(entries, g, Seq::empty()),
        TypeV::StructInstantiation(g, args) => tc_has_layout(entries, g, args),
        TypeV::Reference(_) => false,
        TypeV::MutableReference(_) => false,
        TypeV::TyParam(_) => false,
        _ => true,
    }
}

/// The memoized artifacts of one (struct, type-argument vector) pair.
#[derive(Debug)]
pub struct StructInfo {
    pub struct_tag: Option<StructTag>,
    pub struct_layout: Option<TypeLayout>,
}

impl StructInfo {
    /// An empty record.
    pub fn new() -> (r: StructInfo)
        ensures
            r.struct_tag is None,
            r.struct_layout is None,
    {
        StructInfo { struct_tag: None, struct_layout: None }
    }
}

/// The cache of derived artifacts, keyed by struct index and type-argument
/// vector.
pub struct TypeCache {
    pub entries: Vec<(usize, Vec<Type>, StructInfo)>,
}

impl TypeCache {
    /// Every memoized layout is the layout of its struct instantiation,
    /// relative to the struct table `structs`.
    pub open spec fn wf(self, structs: Seq<StructType>) -> bool {
        &&& forall|i: int|
            0 <= i < self.entries@.len() ==> ((#[trigger] self.entries@[i]).2.struct_layout
                matches Some(l) ==> struct_layout_rel(
                structs,
                self.entries@[i].0 as int,
                type_views(self.entries@[i].1@),
                l@,
            ))
        &&& forall|i: int|
            0 <= i < self.entries@.len() ==> ((#[trigger] self.entries@[i]).2.struct_tag
                matches Some(st) ==> struct_tag_rel(
                structs,
                self.entries@[i].0 as int,
                type_views(self.entries@[i].1@),
                st@,
            ))
        &&& forall|i: int, j: int|
            0 <= i < j < self.entries@.len() ==> !((#[trigger] self.entries@[i]).0 == (
            #[trigger] self.entries@[j]).0 && type_views(self.entries@[i].1@) == type_views(
                self.entries@[j].1@,
            ))
    }

    /// An empty cache.
    pub fn new() -> (r: TypeCache)
        ensures
            r.entries@.len() == 0,
    {
        TypeCache { entries: Vec::new() }
    }

    /// The position of the entry for `(gidx, ty_args)`, if any.
    #[verifier::loop_isolation(false)]
    pub fn find(&self, gidx: usize, ty_args: &Vec<Type>) -> (r: Option<usize>)
        ensures
            r matches Some(i) ==> i < self.entries@.len() && self.entries@[i as int].0 == gidx
                && type_views(self.entries@[i as int].1@) == type_views(ty_args@),
            r is None ==> forall|i: int|
                0 <= i < self.entries@.len() ==> !((#[trigger] self.entries@[i]).0 == gidx
                    && type_views(self.entries@[i].1@) == type_views(ty_args@)),
    {
        let mut i: usize = 0;
        while i < self.entries.len()
            invariant
                0 <= i <= self.entries@.len(),
                forall|j: int|
                    0 <= j < i ==> !((#[trigger] self.entries@[j]).0 == gidx && type_views(
                        self.entries@[j].1@,
                    ) == type_views(ty_args@)),
            decreases self.entries@.len() - i,
        {
            if self.entries[i].0 == gidx && types_eq(&self.entries[i].1, ty_args) {
                return Some(i);
            }
            i = i + 1;
        }
        None
    }
}

/// A layout stays a layout when the struct table grows: records already
/// issued never move.
pub proof fn lemma_layout_rel_grows(
    structs1: Seq<StructType>,
    structs2: Seq<StructType>,
    t: TypeV,
    l: LayoutV,
)
    requires
        structs1.is_prefix_of(structs2),
        layout_rel(structs1, t, l),
    ensures
        layout_rel(structs2, t, l),
    decreases l, 1int,
{
    match t {
        TypeV::Vector(inner) => {
            lemma_layout_rel_grows(structs1, structs2, *inner, *l->Vector_0);
        }
        TypeV::Struct(g) => {
            lemma_struct_layout_rel_grows(structs1, structs2, g, Seq::empty(), l);
        }
        TypeV::StructInstantiation(g, args) => {
            lemma_struct_layout_rel_grows(structs1, structs2, g, args, l);
        }
        _ => {}
    }
}

/// A struct layout stays a layout when the struct table grows.
pub proof fn lemma_struct_layout_rel_grows(
    structs1: Seq<StructType>,
    structs2: Seq<StructType>,
    g: int,
    args: Seq<TypeV>,
    l: LayoutV,
)
    requires
        structs1.is_prefix_of(structs2),
        struct_layout_rel(structs1, g, args, l),
    ensures
        struct_layout_rel(structs2, g, args, l),
    decreases l, 0int,
{
    assert(structs2[g] == structs1[g]);
    let fls = l->Struct_0;
    let fields = type_views(structs1[g].fields@);
    assert forall|i: int| 0 <= i < fields.len() implies layout_rel(
        structs2,
        subst_v(fields[i], args),
        #[trigger] fls[i],
    ) by {
        lemma_layout_rel_grows(structs1, structs2, subst_v(fields[i], args), fls[i]);
    }
}

/// Translates a runtime type into its serialization layout, memoizing per
/// struct instantiation.  The depth of the layout tree being built is
/// bounded; going past the bound is an error.
#[verifier::loop_isolation(false)]
pub fn type_to_type_layout_impl(
    mc: &ModuleCache,
    tc: &mut TypeCache,
    ty: &Type,
    depth: usize,
) -> (r: Result<TypeLayout, StatusCode>)
    requires
        mc.wf(),
        old(tc).wf(mc.structs@),
        1 <= depth <= 129,
    ensures
        final(tc).wf(mc.structs@),
        r matches Ok(l) ==> layout_rel(mc.structs@, ty@, l@),
        r matches Err(e) ==> (e == StatusCode::VmMaxValueDepthReached || e
            == StatusCode::UnknownInvariantViolation),
        depth > 128 ==> r == Err::<TypeLayout, StatusCode>(StatusCode::VmMaxValueDepthReached),
        pure_layout(mc.structs@, ty@, depth as int) matches LRes::Found(lv) ==> (r matches Ok(l)
            && l@ == lv),
        layout_hits(old(tc).entries@, ty@, depth as int) ==> r is Ok,
        r is Ok ==> layout_hits(final(tc).entries@, ty@, depth as int),
        forall|g2: int, a2: Seq<TypeV>|
            tc_has_layout(old(tc).entries@, g2, a2) ==> #[trigger] tc_has_layout(
                final(tc).entries@,
                g2,
                a2,
            ),
    decreases 130 - depth, 1int,
{
    if depth > 128 {
        return Err(StatusCode::VmMaxValueDepthReached);
    }
    match ty {
        Type::Bool => Ok(TypeLayout::Bool),
        Type::U8 => Ok(TypeLayout::U8),
        Type::U64 => Ok(TypeLayout::U64),
        Type::U128 => Ok(TypeLayout::U128),
        Type::Address => Ok(TypeLayout::Address),
        Type::Signer => Ok(TypeLayout::Signer),
        Type::Vector(inner) => match type_to_type_layout_impl(mc, tc, inner, depth + 1) {
            Ok(l) => Ok(TypeLayout::Vector(Box::new(l))),
            Err(e) => Err(e),
        },
        Type::Struct(g) => {
            let no_args: Vec<Type> = Vec::new();
            proof {
                assert(type_views(no_args@) =~= Seq::<TypeV>::empty());
            }
            struct_gidx_to_type_layout(mc, tc, *g, &no_args, depth)
        }
        Type::StructInstantiation(g, args) => {
            proof {
                crate::runtime_types::lemma_type_views(args@);
            }
            struct_gidx_to_type_layout(mc, tc, *g, args, depth)
        }
        Type::Reference(_) => Err(StatusCode::UnknownInvariantViolation),
        Type::MutableReference(_) => Err(StatusCode::UnknownInvariantViolation),
        Type::TyParam(_) => Err(StatusCode::UnknownInvariantViolation),
    }
}

/// The layout of one struct instantiation: looked up in the cache, or
/// computed from the declared field types and installed there.
#[verifier::loop_isolation(false)]
#[verifier::rlimit(60)]
pub fn struct_gidx_to_type_layout(
    mc: &ModuleCache,
    tc: &mut TypeCache,
    gidx: usize,
    ty_args: &Vec<Type>,
    depth: usize,
) -> (r: Result<TypeLayout, StatusCode>)
    requires
        mc.wf(),
        old(tc).wf(mc.structs@),
        1 <= depth <= 128,
    ensures
        final(tc).wf(mc.structs@),
        r matches Ok(l) ==> struct_layout_rel(mc.structs@, gidx as int, type_views(ty_args@), l@),
        r matches Err(e) ==> (e == StatusCode::VmMaxValueDepthReached || e
            == StatusCode::UnknownInvariantViolation),
        pure_struct_layout(mc.structs@, gidx as int, type_views(ty_args@), depth as int) matches
            LRes::Found(lv) ==> (r matches Ok(l) && l@ == lv),
        tc_has_layout(old(tc).entries@, gidx as int, type_views(ty_args@)) ==> r is Ok,
        r is Ok ==> tc_has_layout(final(tc).entries@, gidx as int, type_views(ty_args@)),
        forall|g2: int, a2: Seq<TypeV>|
            tc_has_layout(old(tc).entries@, g2, a2) ==> #[trigger] tc_has_layout(
                final(tc).entries@,
                g2,
                a2,
            ),
    decreases 130 - depth, 0int,
{
    let ghost pures = pure_struct_layout(mc.structs@, gidx as int, type_views(ty_args@), depth as int);
    match tc.find(gidx, ty_args) {
        Some(i) => {
            match &tc.entries[i].2.struct_layout {
                Some(l) => {
                    let c = duplicate_layout(l);
                    proof {
                        assert(tc_has_layout(tc.entries@, gidx as int, type_views(ty_args@)));
                        if pures is Found {
                            lemma_pure_struct_layout_rel(
                                mc.structs@,
                                gidx as int,
                                type_views(ty_args@),
                                depth as int,
                            );
                            lemma_struct_layout_unique(
                                mc.structs@,
                                gidx as int,
                                type_views(ty_args@),
                                pures->Found_0,
                                c@,
                            );
                        }
                    }
                    return Ok(c);
                }
                None => {}
            }
        }
        None => {}
    }
    proof {
        assert(!tc_has_layout(old(tc).entries@, gidx as int, type_views(ty_args@))) by {
            if tc_has_layout(old(tc).entries@, gidx as int, type_views(ty_args@)) {
                let j = choose|j: int|
                    0 <= j < old(tc).entries@.len() && (#[trigger] old(tc).entries@[j]).0 == gidx
                        && type_views(old(tc).entries@[j].1@) == type_views(ty_args@) && old(
                        tc,
                    ).entries@[j].2.struct_layout is Some;
                assert(false);
            }
        }
    }
    if gidx >= mc.structs.len() {
        return Err(StatusCode::UnknownInvariantViolation);
    }
    let st = mc.struct_at(gidx);
    let ghost fields = type_views(st.fields@);
    proof {
        lemma_type_views(st.fields@);
        lemma_type_views(ty_args@);
        lemma_pure_fields_char(mc.structs@, fields, type_views(ty_args@), depth as int, 0);
        if pures is Found {
            assert(pure_fields(mc.structs@, fields, type_views(ty_args@), depth as int, 0)
                is Vals);
        }
    }
    let ghost pls = pure_fields(mc.structs@, fields, type_views(ty_args@), depth as int, 0);
    let mut field_layouts: Vec<TypeLayout> = Vec::new();
    let mut i: usize = 0;
    while i < st.fields.len()
        invariant
            0 <= i <= st.fields@.len(),
            field_layouts@.len() == i,
            tc.wf(mc.structs@),
            forall|j: int|
                0 <= j < i ==> layout_rel(
                    mc.structs@,
                    subst_v(fields[j], type_views(ty_args@)),
                    (#[trigger] field_layouts@[j])@,
                ),
            pls is Vals ==> forall|j: int|
                0 <= j < i ==> (#[trigger] field_layouts@[j])@ == pls->Vals_0[j],
            forall|g2: int, a2: Seq<TypeV>|
                tc_has_layout(old(tc).entries@, g2, a2) ==> #[trigger] tc_has_layout(
                    tc.entries@,
                    g2,
                    a2,
                ),
        decreases st.fields@.len() - i,
    {
        let sub = match st.fields[i].subst(ty_args) {
            Ok(sub) => sub,
            Err(_) => {
                proof {
                    assert(!crate::runtime_types::params_wf(
                        fields[i as int],
                        type_views(ty_args@).len() as int,
                    ));
                    assert(!(pls is Vals));
                }
                return Err(StatusCode::UnknownInvariantViolation);
            }
        };
        let ghost mid = *tc;
        match type_to_type_layout_impl(mc, tc, &sub, depth + 1) {
            Ok(l) => {
                proof {
                    if pls is Vals {
                        assert(pure_layout(
                            mc.structs@,
                            subst_v(fields[i as int], type_views(ty_args@)),
                            depth + 1,
                        ) == LRes::Found(pls->Vals_0[i as int]));
                        assert(l@ == pls->Vals_0[i as int]);
                    }
                    assert forall|g2: int, a2: Seq<TypeV>|
                        tc_has_layout(old(tc).entries@, g2, a2) implies #[trigger] tc_has_layout(
                        tc.entries@,
                        g2,
                        a2,
                    ) by {
                        assert(tc_has_layout(mid.entries@, g2, a2));
                    }
                }
                field_layouts.push(l);
            }
            Err(e) => {
                proof {
                    if pls is Vals {
                        assert(pure_layout(
                            mc.structs@,
                            subst_v(fields[i as int], type_views(ty_args@)),
                            depth + 1,
                        ) == LRes::Found(pls->Vals_0[i as int]));
                        assert(false);
                    }
                    assert forall|g2: int, a2: Seq<TypeV>|
                        tc_has_layout(old(tc).entries@, g2, a2) implies #[trigger] tc_has_layout(
                        tc.entries@,
                        g2,
                        a2,
                    ) by {
                        assert(tc_has_layout(mid.entries@, g2, a2));
                    }
                }
                return Err(e);
            }
        }
        i = i + 1;
    }
    proof {
        lemma_layout_views(field_layouts@);
    }
    let result = TypeLayout::Struct(field_layouts);
    proof {
        assert(struct_layout_rel(mc.structs@, gidx as int, type_views(ty_args@), result@));
        if pures is Found {
            assert(layout_views(field_layouts@) =~= pls->Vals_0);
            assert(result@ == pures->Found_0);
        }
    }
    let copy = duplicate_layout(&result);
    let ghost pre_install = *tc;
    match tc.find(gidx, ty_args) {
        Some(i) => {
            tc.entries[i].2.struct_layout = Some(copy);
            proof {
                assert forall|k: int|
                    0 <= k < tc.entries@.len() implies ((#[trigger] tc.entries@[k]).2.struct_layout
                    matches Some(l) ==> struct_layout_rel(
                    mc.structs@,
                    tc.entries@[k].0 as int,
                    type_views(tc.entries@[k].1@),
                    l@,
                )) by {
                    if k != i {
                        assert(tc.entries@[k] == pre_install.entries@[k]);
                    }
                }
                assert(tc.entries@[i as int].2.struct_layout is Some);
                assert(tc_has_layout(tc.entries@, gidx as int, type_views(ty_args@)));
                assert forall|g2: int, a2: Seq<TypeV>|
                    tc_has_layout(old(tc).entries@, g2, a2) implies #[trigger] tc_has_layout(
                    tc.entries@,
                    g2,
                    a2,
                ) by {
                    assert(tc_has_layout(pre_install.entries@, g2, a2));
                    let j = choose|j: int|
                        0 <= j < pre_install.entries@.len() && (
                        #[trigger] pre_install.entries@[j]).0 == g2 && type_views(
                            pre_install.entries@[j].1@,
                        ) == a2 && pre_install.entries@[j].2.struct_layout is Some;
                    assert(tc.entries@[j].0 == g2 && type_views(tc.entries@[j].1@) == a2
                        && tc.entries@[j].2.struct_layout is Some);
                }
            }
        }
        None => {
            let args_copy = duplicate_types(ty_args);
            tc.entries.push((gidx, args_copy, StructInfo { struct_tag: None, struct_layout: Some(copy) }));
            proof {
                assert(tc.entries@.last().0 == gidx && type_views(tc.entries@.last().1@)
                    == type_views(ty_args@) && tc.entries@.last().2.struct_layout is Some);
                assert(tc_has_layout(tc.entries@, gidx as int, type_views(ty_args@)));
                assert forall|g2: int, a2: Seq<TypeV>|
                    tc_has_layout(old(tc).entries@, g2, a2) implies #[trigger] tc_has_layout(
                    tc.entries@,
                    g2,
                    a2,
                ) by {
                    assert(tc_has_layout(pre_install.entries@, g2, a2));
                    let j = choose|j: int|
                        0 <= j < pre_install.entries@.len() && (
                        #[trigger] pre_install.entries@[j]).0 == g2 && type_views(
                            pre_install.entries@[j].1@,
                        ) == a2 && pre_install.entries@[j].2.struct_layout is Some;
                    assert(tc.entries@[j].0 == g2 && type_views(tc.entries@[j].1@) == a2
                        && tc.entries@[j].2.struct_layout is Some);
                }
                assert(tc.wf(mc.structs@));
            }
        }
    }
    Ok(result)
}

/// Translates a runtime type into its externally visible tag, memoizing the
/// tag of each struct instantiation.  References and type parameters have no
/// tag.
#[verifier::loop_isolation(false)]
pub fn type_to_type_tag_impl(mc: &ModuleCache, tc: &mut TypeCache, ty: &Type) -> (r: Result<
    TypeTag,
    StatusCode,
>)
    requires
        mc.wf(),
        old(tc).wf(mc.structs@),
    ensures
        final(tc).wf(mc.structs@),
        r is Ok <==> taggable(mc.structs@, ty@),
        r matches Ok(t) ==> tag_rel(mc.structs@, ty@, t@),
        r matches Err(e) ==> e == StatusCode::UnknownInvariantViolation,
    decreases *ty,
{
    match ty {
        Type::Bool => Ok(TypeTag::Bool),
        Type::U8 => Ok(TypeTag::U8),
        Type::U64 => Ok(TypeTag::U64),
        Type::U128 => Ok(TypeTag::U128),
        Type::Address => Ok(TypeTag::Address),
        Type::Signer => Ok(TypeTag::Signer),
        Type::Vector(inner) => match type_to_type_tag_impl(mc, tc, inner) {
            Ok(t) => Ok(TypeTag::Vector(Box::new(t))),
            Err(e) => Err(e),
        },
        Type::Struct(g) => struct_gidx_to_type_tag(mc, tc, *g),
        Type::StructInstantiation(g, args) => {
            let ghost av = type_views(args@);
            proof {
                lemma_type_views(args@);
            }
            let mut arg_tags: Vec<TypeTag> = Vec::new();
            let mut i: usize = 0;
            while i < args.len()
                invariant
                    0 <= i <= args@.len(),
                    arg_tags@.len() == i,
                    tc.wf(mc.structs@),
                    forall|j: int| 0 <= j < i ==> taggable(mc.structs@, #[trigger] av[j]),
                    forall|j: int|
                        0 <= j < i ==> tag_rel(mc.structs@, av[j], (#[trigger] arg_tags@[j])@),
                decreases args@.len() - i,
            {
                match type_to_type_tag_impl(mc, tc, &args[i]) {
                    Ok(t) => {
                        proof {
                            assert(av[i as int] == args@[i as int]@);
                        }
                        arg_tags.push(t);
                    }
                    Err(e) => {
                        proof {
                            assert(av[i as int] == args@[i as int]@);
                            assert(!taggable(mc.structs@, av[i as int]));
                            assert(ty@ == TypeV::StructInstantiation(*g as int, av));
                            assert(!taggable(mc.structs@, ty@)) by {
                                if taggable(mc.structs@, ty@) {
                                    let argsv = ty@->StructInstantiation_1;
                                    assert(argsv == av);
                                    assert(taggable(mc.structs@, argsv[i as int]));
                                }
                            }
                        }
                        return Err(e);
                    }
                }
                i = i + 1;
            }
            let r = struct_gidx_to_type_tag_with(mc, tc, *g, args, arg_tags);
            proof {
                if *g < mc.structs@.len() {
                    assert(taggable(mc.structs@, ty@));
                } else {
                    assert(!taggable(mc.structs@, ty@));
                }
            }
            r
        }
        Type::Reference(_) => Err(StatusCode::UnknownInvariantViolation),
        Type::MutableReference(_) => Err(StatusCode::UnknownInvariantViolation),
        Type::TyParam(_) => Err(StatusCode::UnknownInvariantViolation),
    }
}

/// The tag of an uninstantiated struct.
fn struct_gidx_to_type_tag(mc: &ModuleCache, tc: &mut TypeCache, gidx: usize) -> (r: Result<
    TypeTag,
    StatusCode,
>)
    requires
        mc.wf(),
        old(tc).wf(mc.structs@),
    ensures
        final(tc).wf(mc.structs@),
        r is Ok <==> gidx < mc.structs@.len(),
        r matches Ok(t) ==> (t@ matches TagV::Struct(stv) && struct_tag_rel(
            mc.structs@,
            gidx as int,
            Seq::empty(),
            *stv,
        )),
        r matches Err(e) ==> e == StatusCode::UnknownInvariantViolation,
{
    let no_args: Vec<Type> = Vec::new();
    let no_tags: Vec<TypeTag> = Vec::new();
    proof {
        assert(type_views(no_args@) =~= Seq::<TypeV>::empty());
    }
    struct_gidx_to_type_tag_with(mc, tc, gidx, &no_args, no_tags)
}

/// The tag of a struct instantiation, given the already-computed tags of its
/// type arguments: looked up in the cache, or built from the struct record's
/// identity and installed there.
#[verifier::loop_isolation(false)]
fn struct_gidx_to_type_tag_with(
    mc: &ModuleCache,
    tc: &mut TypeCache,
    gidx: usize,
    ty_args: &Vec<Type>,
    arg_tags: Vec<TypeTag>,
) -> (r: Result<TypeTag, StatusCode>)
    requires
        mc.wf(),
        old(tc).wf(mc.structs@),
        arg_tags@.len() == ty_args@.len(),
        forall|i: int|
            0 <= i < ty_args@.len() ==> tag_rel(
                mc.structs@,
                type_views(ty_args@)[i],
                (#[trigger] arg_tags@[i])@,
            ),
    ensures
        final(tc).wf(mc.structs@),
        r is Ok <==> gidx < mc.structs@.len(),
        r matches Ok(t) ==> (t@ matches TagV::Struct(stv) && struct_tag_rel(
            mc.structs@,
            gidx as int,
            type_views(ty_args@),
            *stv,
        )),
        r matches Err(e) ==> e == StatusCode::UnknownInvariantViolation,
{
    proof {
        lemma_type_views(ty_args@);
    }
    match tc.find(gidx, ty_args) {
        Some(i) => {
            match &tc.entries[i].2.struct_tag {
                Some(t) => {
                    let c = duplicate_struct_tag(t);
                    proof {
                        assert(struct_tag_rel(
                            mc.structs@,
                            gidx as int,
                            type_views(ty_args@),
                            c@,
                        ));
                    }
                    return Ok(TypeTag::Struct(Box::new(c)));
                }
                None => {}
            }
        }
        None => {}
    }
    if gidx >= mc.structs.len() {
        return Err(StatusCode::UnknownInvariantViolation);
    }
    let st = mc.struct_at(gidx);
    let tag = StructTag {
        address: clone_bytes(&st.module.address),
        module: clone_bytes(&st.module.name),
        name: clone_bytes(&st.name),
        type_params: arg_tags,
    };
    proof {
        lemma_tag_views(tag.type_params@);
        assert forall|i: int| 0 <= i < ty_args@.len() implies tag_rel(
            mc.structs@,
            type_views(ty_args@)[i],
            #[trigger] tag@.type_params[i],
        ) by {
            assert(tag@.type_params[i] == tag.type_params@[i]@);
        }
        assert(struct_tag_rel(mc.structs@, gidx as int, type_views(ty_args@), tag@));
    }
    let copy = duplicate_struct_tag(&tag);
    let ghost pre = *tc;
    match tc.find(gidx, ty_args) {
        Some(i) => {
            tc.entries[i].2.struct_tag = Some(copy);
            proof {
                assert forall|k: int|
                    0 <= k < tc.entries@.len() implies ((#[trigger] tc.entries@[k]).2.struct_tag
                    matches Some(stg) ==> struct_tag_rel(
                    mc.structs@,
                    tc.entries@[k].0 as int,
                    type_views(tc.entries@[k].1@),
                    stg@,
                )) by {
                    if k != i {
                        assert(tc.entries@[k] == pre.entries@[k]);
                    }
                }
                assert(tc.wf(mc.structs@));
            }
        }
        None => {
            let args_copy = duplicate_types(ty_args);
            tc.entries.push(
                (gidx, args_copy, StructInfo { struct_tag: Some(copy), struct_layout: None }),
            );
            proof {
                assert(type_views(tc.entries@.last().1@) == type_views(ty_args@));
                assert(tc.wf(mc.structs@));
            }
        }
    }
    Ok(TypeTag::Struct(Box::new(tag)))
}

/// An owned copy of a struct tag.
#[verifier::loop_isolation(false)]
pub fn duplicate_struct_tag(t: &StructTag) -> (r: StructTag)
    ensures
        r@ == t@,
    decreases *t,
{
    let mut type_params: Vec<TypeTag> = Vec::new();
    let mut i: usize = 0;
    while i < t.type_params.len()
        invariant
            0 <= i <= t.type_params@.len(),
            type_params@.len() == i,
            forall|j: int| 0 <= j < i ==> (#[trigger] type_params@[j])@ == t.type_params@[j]@,
        decreases t.type_params@.len() - i,
    {
        let c = duplicate_tag(&t.type_params[i]);
        type_params.push(c);
        i = i + 1;
    }
    proof {
        lemma_tag_views(type_params@);
        lemma_tag_views(t.type_params@);
        assert(tag_views(type_params@) =~= tag_views(t.type_params@));
    }
    StructTag {
        address: clone_bytes(&t.address),
        module: clone_bytes(&t.module),
        name: clone_bytes(&t.name),
        type_params,
    }
}

/// An owned copy of a tag.
#[verifier::loop_isolation(false)]
pub fn duplicate_tag(t: &TypeTag) -> (r: TypeTag)
    ensures
        r@ == t@,
    decreases *t,
{
    match t {
        TypeTag::Bool => TypeTag::Bool,
        TypeTag::U8 => TypeTag::U8,
        TypeTag::U64 => TypeTag::U64,
        TypeTag::U128 => TypeTag::U128,
        TypeTag::Address => TypeTag::Address,
        TypeTag::Signer => TypeTag::Signer,
        TypeTag::Vector(inner) => TypeTag::Vector(Box::new(duplicate_tag(inner))),
        TypeTag::Struct(s) => TypeTag::Struct(Box::new(duplicate_struct_tag(s))),
    }
}

} // verus!
