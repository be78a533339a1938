//! The checker before it has looked at anything: the types every program knows, and empty tables
//! for each file.

use vstd::prelude::*;
use vstd::string::*;
use crate::checker::{
    bounds_list, decls_of, enums_made, fn_bounds_of, fns_made, items_of, loops_of, modes_of, ns_of,
    pending_of, pins_of, reports_each, scopes_of, signatures_of, structs_made, stubs_made,
    targets_of, Checker, ModuleNs,
};
use crate::hir::{
    enums_of, fields_of, fns_of, impls_of, locals_of, methods_of, reactors_of, structs_of,
    traits_of, variants_of, EnumDef, FieldDef, FnId, Program, TraitDef, Ty, VariantDef, Vocabulary,
};
use crate::model;
use crate::span::{reports, texts, Report, Span};
use crate::state::{no_span, Ctx, DeclKind, Ns, State};
use crate::table::Table;
use crate::text::{decimal, number};

verus! {

/// Fields that are named by their places.
pub open spec fn places(n: nat, ty: model::Ty) -> Seq<model::FieldDef> {
    Seq::new(n, |i: int| model::FieldDef { name: decimal(i as nat), ty, span: no_span() })
}

pub open spec fn positional(name: Seq<char>, n: nat, ty: model::Ty) -> model::VariantDef {
    model::VariantDef { name, fields: places(n, ty), positional: true, span: no_span() }
}

pub open spec fn seeded(name: Seq<char>, variants: Seq<model::VariantDef>) -> model::EnumDef {
    model::EnumDef { name, type_params: seq![], variants, span: no_span() }
}

/// The failures of the host, each with as many strings as the vocabulary says.
pub open spec fn failures(list: Seq<(Seq<char>, usize)>) -> Seq<model::VariantDef> {
    Seq::new(list.len(), |i: int| positional(list[i].0, list[i].1 as nat, model::Ty::Str))
}

/// The enums every program knows. Only the type arguments of the first two are special.
#[verifier::opaque]
pub open spec fn seeded_enums(v: model::Vocabulary) -> Seq<model::EnumDef> {
    seq![
        seeded(
            "Option"@,
            seq![
                positional("None"@, 0, model::Ty::Error),
                positional("Some"@, 1, model::Ty::Error),
            ],
        ),
        seeded(
            "Result"@,
            seq![
                positional("Ok"@, 1, model::Ty::Error),
                positional("Err"@, 1, model::Ty::Error),
            ],
        ),
        seeded("IoError"@, failures(v.io_errors)),
    ]
}

pub open spec fn no_names() -> Ns {
    Ns {
        types: Map::empty(),
        fns: Map::empty(),
        reactors: Map::empty(),
        traits: Map::empty(),
        namespaces: Map::empty(),
    }
}

/// What is known before the first file is looked at. `Eq` is a trait without methods that no file
/// declares.
#[verifier::opaque]
pub open spec fn initial(v: model::Vocabulary, modules: nat) -> State {
    State {
        vocabulary: v,
        program: model::Program {
            structs: seq![],
            enums: seeded_enums(v),
            fns: seq![],
            reactors: seq![],
            main: None,
        },
        errors: Seq::new(modules, |i: int| seq![]),
        ns: Seq::new(modules, |i: int| no_names()),
        current: 0,
        fn_owner: seq![],
        reactor_owner: seq![],
        struct_owner: seq![],
        enum_owner: seq![usize::MAX, usize::MAX, usize::MAX],
        fn_of_item: Seq::new(modules, |i: int| seq![]),
        names: seq![],
        keys: seq![],
        stems: seq![],
        key_index: Map::empty(),
        decls: Seq::new(modules, |i: int| Map::empty()),
        import_target: Seq::new(modules, |i: int| seq![]),
        pending_fn_imports: seq![],
        signatures: seq![],
        param_modes: seq![],
        mode_pinned: seq![],
        fn_bounds: seq![],
        traits: seq![model::TraitDef { name: "Eq"@, module: usize::MAX, methods: seq![] }],
        impls: seq![],
        locals: seq![],
        scopes: seq![],
        loops: seq![],
        ret: model::Ty::Unit,
        fn_name: ""@,
        ctx: Ctx::Plain,
        uses: seq![],
        scope_depth: 0,
        members: Map::empty(),
        reactor: None,
        in_handler: false,
        assigning: false,
        type_params: seq![],
        bounds: seq![],
        self_ty: None,
        struct_instances: seq![],
        enum_instances: seq![],
        fn_instances: seq![],
        stubs: seq![],
        fill_queue: seq![],
        fill_cursor: 0,
        worklist: seq![],
        work_cursor: 0,
        defining_types: false,
        cap_reported: false,
    }
}

// ---------------------------------------------------------------- carrying it out

fn place_fields(n: usize, ty: &Ty) -> (r: Vec<FieldDef>)
    ensures
        fields_of(r@) == places(n as nat, ty@),
{
    let mut r: Vec<FieldDef> = Vec::new();
    for i in 0..n
        invariant
            r.len() == i,
            forall|j: int|
                0 <= j < i ==> #[trigger] r@[j]@ == (model::FieldDef {
                    name: decimal(j as nat),
                    ty: ty@,
                    span: no_span(),
                }),
    {
        r.push(FieldDef { name: number(i), ty: ty.copy(), span: Span::new(0, 0) });
    }
    assert(fields_of(r@) =~= places(n as nat, ty@));
    r
}

fn positional_variant(name: &str, n: usize, ty: &Ty) -> (r: VariantDef)
    ensures
        r@ == positional(name@, n as nat, ty@),
{
    VariantDef {
        name: name.to_owned(),
        fields: place_fields(n, ty),
        positional: true,
        span: Span::new(0, 0),
    }
}

fn seeded_enum(name: &str, variants: Vec<VariantDef>) -> (r: EnumDef)
    ensures
        r@ == seeded(name@, variants_of(variants@)),
{
    let r = EnumDef {
        name: name.to_owned(),
        type_params: Vec::new(),
        variants,
        span: Span::new(0, 0),
    };
    assert(r@ =~= seeded(name@, variants_of(variants@)));
    r
}

fn pair(a: VariantDef, b: VariantDef) -> (r: Vec<VariantDef>)
    ensures
        variants_of(r@) == seq![a@, b@],
{
    let mut r: Vec<VariantDef> = Vec::new();
    r.push(a);
    r.push(b);
    assert(variants_of(r@) =~= seq![a@, b@]);
    r
}

fn failure_variants(list: &Vec<(String, usize)>) -> (r: Vec<VariantDef>)
    ensures
        variants_of(r@) == failures(crate::hir::io_errors_of(list@)),
{
    let mut r: Vec<VariantDef> = Vec::new();
    for i in 0..list.len()
        invariant
            r.len() == i,
            forall|j: int|
                0 <= j < i ==> #[trigger] r@[j]@ == positional(
                    list@[j].0@,
                    list@[j].1 as nat,
                    model::Ty::Str,
                ),
    {
        r.push(positional_variant(list[i].0.as_str(), list[i].1, &Ty::Str));
    }
    assert(variants_of(r@) =~= failures(crate::hir::io_errors_of(list@)));
    r
}

fn make_enums(v: &Vocabulary) -> (r: Vec<EnumDef>)
    ensures
        enums_of(r@) == seeded_enums(v@),
{
    proof {
        reveal(seeded_enums);
    }
    let option = seeded_enum(
        "Option",
        pair(
            positional_variant("None", 0, &Ty::Error),
            positional_variant("Some", 1, &Ty::Error),
        ),
    );
    let result = seeded_enum(
        "Result",
        pair(
            positional_variant("Ok", 1, &Ty::Error),
            positional_variant("Err", 1, &Ty::Error),
        ),
    );
    let io_error = seeded_enum("IoError", failure_variants(&v.io_errors));
    let mut r: Vec<EnumDef> = Vec::new();
    r.push(option);
    r.push(result);
    r.push(io_error);
    assert(enums_of(r@) =~= seeded_enums(v@));
    r
}

fn empty_lists<T>(n: usize) -> (r: Vec<Vec<T>>)
    ensures
        r.len() == n,
        forall|i: int| 0 <= i < n ==> #[trigger] r@[i]@ == Seq::<T>::empty(),
{
    let mut r: Vec<Vec<T>> = Vec::new();
    for i in 0..n
        invariant
            r.len() == i,
            forall|j: int| 0 <= j < i ==> #[trigger] r@[j]@ == Seq::<T>::empty(),
    {
        r.push(Vec::new());
    }
    r
}

fn empty_names(n: usize) -> (r: Vec<ModuleNs>)
    ensures
        ns_of(r@) == Seq::new(n as nat, |i: int| no_names()),
{
    let mut r: Vec<ModuleNs> = Vec::new();
    for i in 0..n
        invariant
            r.len() == i,
            forall|j: int| 0 <= j < i ==> #[trigger] r@[j]@ == no_names(),
    {
        r.push(ModuleNs::new());
    }
    assert(ns_of(r@) =~= Seq::new(n as nat, |i: int| no_names()));
    r
}

fn empty_tables(n: usize) -> (r: Vec<Table<(DeclKind, bool)>>)
    ensures
        decls_of(r@) == Seq::new(n as nat, |i: int| Map::<Seq<char>, (DeclKind, bool)>::empty()),
{
    let mut r: Vec<Table<(DeclKind, bool)>> = Vec::new();
    for i in 0..n
        invariant
            r.len() == i,
            forall|j: int|
                0 <= j < i ==> #[trigger] r@[j]@ == Map::<Seq<char>, (DeclKind, bool)>::empty(),
    {
        r.push(Table::new());
    }
    assert(decls_of(r@) =~= Seq::new(
        n as nat,
        |i: int| Map::<Seq<char>, (DeclKind, bool)>::empty(),
    ));
    r
}

fn seeded_trait() -> (r: Vec<TraitDef>)
    ensures
        traits_of(r@) == seq![model::TraitDef { name: "Eq"@, module: usize::MAX, methods: seq![] }],
{
    let eq = TraitDef { name: "Eq".to_owned(), module: usize::MAX, methods: Vec::new() };
    assert(methods_of(eq.methods@) =~= seq![]);
    let mut r: Vec<TraitDef> = Vec::new();
    r.push(eq);
    assert(traits_of(r@) =~= seq![
        model::TraitDef { name: "Eq"@, module: usize::MAX, methods: seq![] },
    ]);
    r
}

fn start_program(v: &Vocabulary) -> (r: Program)
    ensures
        r@ == (model::Program {
            structs: seq![],
            enums: seeded_enums(v@),
            fns: seq![],
            reactors: seq![],
            main: None,
        }),
{
    let r = Program {
        structs: Vec::new(),
        enums: make_enums(v),
        fns: Vec::new(),
        reactors: Vec::new(),
        main: None,
    };
    assert(structs_of(r.structs@) =~= seq![]);
    assert(fns_of(r.fns@) =~= seq![]);
    assert(reactors_of(r.reactors@) =~= seq![]);
    r
}

impl Checker {
    /// A checker for so many files.
    pub fn new(modules: usize, vocabulary: Vocabulary) -> (r: Checker)
        ensures
            r@ == initial(vocabulary@, modules as nat),
    {
        proof {
            reveal(Checker::view);
            reveal(initial);
        }
        let mut enum_owner: Vec<usize> = Vec::new();
        enum_owner.push(usize::MAX);
        enum_owner.push(usize::MAX);
        enum_owner.push(usize::MAX);
        let program = start_program(&vocabulary);
        let r = Checker {
            vocabulary,
            program,
            errors: empty_lists(modules),
            ns: empty_names(modules),
            current: 0,
            fn_owner: Vec::new(),
            reactor_owner: Vec::new(),
            struct_owner: Vec::new(),
            enum_owner,
            fn_of_item: empty_lists(modules),
            names: Vec::new(),
            keys: Vec::new(),
            stems: Vec::new(),
            key_index: Table::new(),
            decls: empty_tables(modules),
            import_target: empty_lists(modules),
            pending_fn_imports: Vec::new(),
            signatures: Vec::new(),
            param_modes: Vec::new(),
            mode_pinned: Vec::new(),
            fn_bounds: Vec::new(),
            traits: seeded_trait(),
            impls: Vec::new(),
            locals: Vec::new(),
            scopes: Vec::new(),
            loops: Vec::new(),
            ret: Ty::Unit,
            fn_name: "".to_owned(),
            ctx: Ctx::Plain,
            uses: Vec::new(),
            scope_depth: 0,
            members: Table::new(),
            reactor: None,
            in_handler: false,
            assigning: false,
            type_params: Vec::new(),
            bounds: Vec::new(),
            self_ty: None,
            struct_instances: Vec::new(),
            enum_instances: Vec::new(),
            fn_instances: Vec::new(),
            stubs: Vec::new(),
            fill_queue: Vec::new(),
            fill_cursor: 0,
            worklist: Vec::new(),
            work_cursor: 0,
            defining_types: false,
            cap_reported: false,
        };
        let ghost n = modules as nat;
        assert forall|i: int| 0 <= i < n implies #[trigger] reports(r.errors@[i]@) =~= seq![] by {}
        assert(reports_each(r.errors@) =~= Seq::new(n, |i: int| Seq::<Report>::empty()));
        assert(items_of(r.fn_of_item@) =~= Seq::new(n, |i: int| Seq::<Option<FnId>>::empty()));
        assert(targets_of(r.import_target@) =~= Seq::new(
            n,
            |i: int| Seq::<Option<usize>>::empty(),
        ));
        assert(r.enum_owner@ =~= seq![usize::MAX, usize::MAX, usize::MAX]);
        assert(texts(r.names@) =~= seq![]);
        assert(texts(r.type_params@) =~= seq![]);
        assert(pending_of(r.pending_fn_imports@) =~= seq![]);
        assert(signatures_of(r.signatures@) =~= seq![]);
        assert(modes_of(r.param_modes@) =~= seq![]);
        assert(pins_of(r.mode_pinned@) =~= seq![]);
        assert(fn_bounds_of(r.fn_bounds@) =~= seq![]);
        assert(impls_of(r.impls@) =~= seq![]);
        assert(locals_of(r.locals@) =~= seq![]);
        assert(scopes_of(r.scopes@) =~= seq![]);
        assert(loops_of(r.loops@) =~= seq![]);
        assert(bounds_list(r.bounds@) =~= seq![]);
        assert(structs_made(r.struct_instances@) =~= seq![]);
        assert(enums_made(r.enum_instances@) =~= seq![]);
        assert(fns_made(r.fn_instances@) =~= seq![]);
        assert(stubs_made(r.stubs@) =~= seq![]);
        assert(r.fn_owner@ =~= seq![]);
        assert(r.uses@ =~= seq![]);
        assert(r.fill_queue@ =~= seq![]);
        assert(r.worklist@ =~= seq![]);
        r
    }
}

} // verus!
