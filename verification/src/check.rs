//! Checking a program of one or more files: syntax trees in, a typed program and the diagnostics
//! of each file out.
//!
//! Every phase looks at every file before the next phase starts, so that what one file says of
//! another does not depend on the order in which they were found, and two files may import each
//! other.

use vstd::prelude::*;
use vstd::string::*;
use crate::ast;
use crate::checker::{reports_each, Checker};
use crate::filing::filed;
use crate::growth::check::{every_file_has_its_reports, tables_stay_in_step};
use crate::hir::{Program, Vocabulary};
use crate::imports::{bind_fn_imports, bind_imports, check_specifiers, collect_decls};
use crate::item::{check_fns, declare_fns, declare_types, define_types};
use crate::members::declare_reactors;
use crate::model;
use crate::mono::{drain_type_fills, monomorphize};
use crate::passes::whole_program;
use crate::reactor::check_reactors;
use crate::span::{reports, texts, Diagnostic, Report};
use crate::specifier::{ends_with, has_suffix, segments, segments_nonempty, split};
use crate::start::initial;
use crate::state::State;
use crate::table::Table;
use crate::traits::{declare_impls, define_traits};
use crate::wiring::{scan_reactors, wirings, Wires, Wiring};

verus! {

/// One file. `name` is what diagnostics print; `key` is what import specifiers resolve to.
pub struct ModuleInput<'a> {
    pub name: String,
    pub key: String,
    pub module: &'a ast::Module,
}

/// The mathematical content of a [`ModuleInput`].
#[verifier::ext_equal]
pub struct File {
    pub name: Seq<char>,
    pub key: Seq<char>,
    pub module: ast::Module,
}

impl ModuleInput<'_> {
    pub open spec fn view(&self) -> File {
        File { name: self.name@, key: self.key@, module: *self.module }
    }
}

pub open spec fn files(s: Seq<ModuleInput>) -> Seq<File> {
    Seq::new(s.len(), |i: int| s[i]@)
}

/// The checked program, with one list of diagnostics for each file, in the order of the files.
pub struct CheckedModules {
    pub program: Program,
    pub errors: Vec<Vec<Diagnostic>>,
}

/// A checked program of one file.
pub struct Checked {
    pub program: Program,
    pub errors: Vec<Diagnostic>,
}

/// A look at one file.
#[derive(Clone, Copy)]
pub enum Phase {
    CollectDecls,
    CheckSpecifiers,
    DeclareTypes,
    BindImports,
    DefineTypes,
    DefineTraits,
    DeclareFns,
    DeclareImpls,
    DeclareReactors,
    CheckFns,
}

#[verifier::opaque]
pub open spec fn phase(s: State, p: Phase, module: ast::Module) -> State {
    match p {
        Phase::CollectDecls => collect_decls(s, module),
        Phase::CheckSpecifiers => check_specifiers(s, module),
        Phase::DeclareTypes => declare_types(s, module),
        Phase::BindImports => bind_imports(s, module),
        Phase::DefineTypes => define_types(s, module),
        Phase::DefineTraits => define_traits(s, module),
        Phase::DeclareFns => declare_fns(s, module),
        Phase::DeclareImpls => declare_impls(s, module),
        Phase::DeclareReactors => declare_reactors(s, module),
        Phase::CheckFns => check_fns(s, module),
    }
}

/// One phase over every file, in order.
pub open spec fn each(s: State, p: Phase, inputs: Seq<File>) -> State
    decreases inputs.len(),
{
    if inputs.len() == 0 {
        s
    } else {
        let at = (inputs.len() - 1) as usize;
        phase(
            each(s, p, inputs.drop_last()).with_current(at),
            p,
            inputs.last().module,
        )
    }
}

/// A file's name without its directory and its extension.
#[verifier::opaque]
pub open spec fn stem_of(name: Seq<char>) -> Seq<char> {
    let base = segments(name).last();
    if ends_with(base, ".norn"@) {
        base.take(base.len() - ".norn"@.len())
    } else {
        base
    }
}

/// Where each key first occurs.
pub open spec fn keyed(keys: Seq<Seq<char>>) -> Map<Seq<char>, usize>
    decreases keys.len(),
{
    if keys.len() == 0 {
        Map::empty()
    } else {
        let front = keyed(keys.drop_last());
        if front.dom().contains(keys.last()) {
            front
        } else {
            front.insert(keys.last(), (keys.len() - 1) as usize)
        }
    }
}

pub open spec fn input_names(inputs: Seq<File>) -> Seq<Seq<char>> {
    Seq::new(inputs.len(), |i: int| inputs[i].name)
}

pub open spec fn input_keys(inputs: Seq<File>) -> Seq<Seq<char>> {
    Seq::new(inputs.len(), |i: int| inputs[i].key)
}

pub open spec fn input_stems(inputs: Seq<File>) -> Seq<Seq<char>> {
    Seq::new(inputs.len(), |i: int| stem_of(inputs[i].name))
}

/// The files under the names they came with.
#[verifier::opaque]
pub open spec fn introduced(s: State, inputs: Seq<File>) -> State {
    State {
        names: input_names(inputs),
        keys: input_keys(inputs),
        stems: input_stems(inputs),
        key_index: keyed(input_keys(inputs)),
        ..s
    }
}

/// Every name declared, every import bound, every signature resolved.
#[verifier::opaque]
pub open spec fn signatures_known(s: State, inputs: Seq<File>) -> State {
    let s1 = each(introduced(s, inputs), Phase::CollectDecls, inputs);
    let s2 = each(s1, Phase::CheckSpecifiers, inputs);
    let s3 = each(s2, Phase::DeclareTypes, inputs);
    let s4 = each(s3, Phase::BindImports, inputs).with_defining_types(true);
    let s5 = drain_type_fills(each(s4, Phase::DefineTypes, inputs));
    let s6 = each(s5, Phase::DefineTraits, inputs);
    let s7 = bind_fn_imports(each(s6, Phase::DeclareFns, inputs));
    let s8 = each(s7, Phase::DeclareImpls, inputs);
    each(s8, Phase::DeclareReactors, inputs)
}

/// The graphs of the reactors of every file.
pub open spec fn graphs(s: State, inputs: Seq<File>) -> (State, Seq<Seq<Wires>>)
    decreases inputs.len(),
{
    if inputs.len() == 0 {
        (s, seq![])
    } else {
        let r = graphs(s, inputs.drop_last());
        let one = scan_reactors(
            r.0.with_current((inputs.len() - 1) as usize),
            inputs.last().module,
        );
        (one.0, r.1.push(one.1))
    }
}

/// The reactors of every file whose graphs could be built.
pub open spec fn reactors_checked(
    s: State,
    inputs: Seq<File>,
    ws: Seq<Seq<Wires>>,
) -> State
    decreases inputs.len(),
{
    if inputs.len() == 0 || ws.len() == 0 {
        s
    } else {
        check_reactors(
            reactors_checked(s, inputs.drop_last(), ws.drop_last()).with_current(
                (inputs.len() - 1) as usize,
            ),
            inputs.last().module,
            ws.last(),
        )
    }
}

/// Every body typed. Reactors come between signatures and bodies: a task may mention a reactor,
/// and a node may call any function.
#[verifier::opaque]
pub open spec fn bodies_checked(s: State, inputs: Seq<File>) -> State {
    let g = graphs(s, inputs);
    each(reactors_checked(g.0, inputs, g.1), Phase::CheckFns, inputs)
}

/// What is known when everything has been looked at.
#[verifier::opaque]
pub open spec fn outcome(v: model::Vocabulary, inputs: Seq<File>) -> State {
    whole_program(
        monomorphize(
            bodies_checked(signatures_known(initial(v, inputs.len()), inputs), inputs),
        ),
    )
}

// ---------------------------------------------------------------- source order

/// How many reports at the front start before a place.
pub open spec fn before(list: Seq<Report>, start: usize) -> int
    decreases list.len(),
{
    if list.len() == 0 || list[0].span.start >= start {
        0
    } else {
        1 + before(list.drop_first(), start)
    }
}

/// Reports in source order. Of two at one place, the one found first comes first.
pub open spec fn in_source_order(list: Seq<Report>) -> Seq<Report>
    decreases list.len(),
{
    if list.len() == 0 {
        list
    } else {
        let rest = in_source_order(list.drop_first());
        rest.insert(before(rest, list[0].span.start), list[0])
    }
}

pub open spec fn each_in_source_order(all: Seq<Seq<Report>>) -> Seq<Seq<Report>> {
    Seq::new(all.len(), |i: int| in_source_order(all[i]))
}

proof fn before_is_inside(list: Seq<Report>, start: usize)
    ensures
        0 <= before(list, start) <= list.len(),
        forall|i: int| 0 <= i < before(list, start) ==> (#[trigger] list[i]).span.start < start,
        before(list, start) < list.len() ==> list[before(list, start)].span.start >= start,
    decreases list.len(),
{
    if list.len() > 0 && list[0].span.start < start {
        before_is_inside(list.drop_first(), start);
        assert forall|i: int| 0 <= i < before(list, start) implies (#[trigger] list[i]).span.start
            < start by {
            if i > 0 {
                assert(list[i] == list.drop_first()[i - 1]);
            }
        }
    }
}

/// `before` is the only place with what starts earlier in front of it and what does not behind.
proof fn before_is(list: Seq<Report>, start: usize, at: int)
    requires
        0 <= at <= list.len(),
        forall|i: int| 0 <= i < at ==> (#[trigger] list[i]).span.start < start,
        at < list.len() ==> list[at].span.start >= start,
    ensures
        before(list, start) == at,
{
    before_is_inside(list, start);
    let b = before(list, start);
    if b < at {
        assert(list[b].span.start < start);
    } else if at < b {
        assert(list[at].span.start < start);
    }
}

pub open spec fn ordered(list: Seq<Report>) -> bool {
    forall|i: int, j: int|
        0 <= i <= j < list.len() ==> (#[trigger] list[i]).span.start <= (
        #[trigger] list[j]).span.start
}

/// The reports of a file come out in source order, and they are the reports that were made:
/// none is lost and none is added.
pub proof fn reports_come_in_source_order(list: Seq<Report>)
    ensures
        ordered(in_source_order(list)),
        in_source_order(list).to_multiset() == list.to_multiset(),
    decreases list.len(),
{
    broadcast use vstd::seq_lib::group_to_multiset_ensures;

    if list.len() > 0 {
        let rest = in_source_order(list.drop_first());
        let x = list[0];
        reports_come_in_source_order(list.drop_first());
        before_is_inside(rest, x.span.start);
        let at = before(rest, x.span.start);
        let all = rest.insert(at, x);
        assert forall|i: int, j: int| 0 <= i <= j < all.len() implies (
        #[trigger] all[i]).span.start <= (#[trigger] all[j]).span.start by {
            if i < at {
                assert(all[i] == rest[i]);
            } else if i > at {
                assert(all[i] == rest[i - 1]);
            }
            if j < at {
                assert(all[j] == rest[j]);
            } else if j > at {
                assert(all[j] == rest[j - 1]);
                assert(rest[at].span.start <= rest[j - 1].span.start);
            }
        }
        vstd::seq_lib::to_multiset_insert(rest, at, x);
        assert(list =~= list.drop_first().insert(0, x));
        vstd::seq_lib::to_multiset_insert(list.drop_first(), 0, x);
    }
}

/// The reports at one place.
pub open spec fn starting_at(list: Seq<Report>, start: usize) -> Seq<Report>
    decreases list.len(),
{
    if list.len() == 0 {
        list
    } else {
        (if list[0].span.start == start {
            seq![list[0]]
        } else {
            seq![]
        }) + starting_at(list.drop_first(), start)
    }
}

proof fn inserting_keeps_places(list: Seq<Report>, x: Report, start: usize)
    ensures
        starting_at(list.insert(before(list, x.span.start), x), start) == starting_at(
            seq![x] + list,
            start,
        ),
    decreases list.len(),
{
    let at = before(list, x.span.start);
    before_is_inside(list, x.span.start);
    let all = list.insert(at, x);
    let whole = seq![x] + list;
    assert(whole.drop_first() =~= list);
    if at == 0 {
        assert(all =~= whole);
    } else {
        let rest = list.drop_first();
        inserting_keeps_places(rest, x, start);
        assert(all.drop_first() =~= rest.insert(at - 1, x));
        assert((seq![x] + rest).drop_first() =~= rest);
        assert(all[0] == list[0]);
        let none: Seq<Report> = seq![];
        let tail = starting_at(rest, start);
        let of_x = if x.span.start == start {
            seq![x]
        } else {
            none
        };
        let of_first = if list[0].span.start == start {
            seq![list[0]]
        } else {
            none
        };
        assert(list[0].span.start < x.span.start);
        assert((seq![x] + rest)[0] == x);
        assert(starting_at(seq![x] + rest, start) == of_x + tail);
        assert(starting_at(all, start) == of_first + (of_x + tail));
        assert(starting_at(list, start) == of_first + tail);
        assert(whole[0] == x);
        assert(starting_at(whole, start) == of_x + (of_first + tail));
        assert(of_first + (of_x + tail) =~= of_x + (of_first + tail));
    }
}

/// Of two reports at one place, the one made first comes out first.
pub proof fn source_order_is_stable(list: Seq<Report>, start: usize)
    ensures
        starting_at(in_source_order(list), start) == starting_at(list, start),
    decreases list.len(),
{
    if list.len() > 0 {
        source_order_is_stable(list.drop_first(), start);
        let rest = in_source_order(list.drop_first());
        inserting_keeps_places(rest, list[0], start);
        assert((seq![list[0]] + rest).drop_first() =~= rest);
    }
}

fn find_place(list: &Vec<Diagnostic>, start: usize) -> (r: usize)
    ensures
        r == before(reports(list@), start),
        r <= list.len(),
{
    for i in 0..list.len()
        invariant
            forall|j: int| 0 <= j < i ==> (#[trigger] reports(list@)[j]).span.start < start,
    {
        assert(reports(list@)[i as int] == list@[i as int]@);
        if list[i].span.start >= start {
            proof {
                before_is(reports(list@), start, i as int);
            }
            return i;
        }
    }
    proof {
        before_is(reports(list@), start, list@.len() as int);
    }
    list.len()
}

fn sort(list: Vec<Diagnostic>) -> (r: Vec<Diagnostic>)
    ensures
        reports(r@) == in_source_order(reports(list@)),
{
    let ghost all = reports(list@);
    let mut rest = list;
    let mut r: Vec<Diagnostic> = Vec::new();
    assert(all.skip(all.len() as int) =~= seq![]);
    assert(reports(r@) =~= seq![]);
    while rest.len() > 0
        invariant
            rest@.len() <= all.len(),
            reports(rest@) == all.take(rest@.len() as int),
            reports(r@) == in_source_order(all.skip(rest@.len() as int)),
        decreases rest.len(),
    {
        let ghost n = rest@.len() as int;
        let ghost was = rest@;
        if let Some(d) = rest.pop() {
            assert(reports(was)[n - 1] == d@);
            assert(all.take(n)[n - 1] == all[n - 1]);
            assert(reports(rest@) =~= all.take(n - 1));
            let ghost tail = all.skip(n - 1);
            assert(tail.drop_first() =~= all.skip(n));
            assert(tail[0] == d@);
            let at: usize = find_place(&r, d.span.start);
            let ghost old_r = r@;
            r.insert(at, d);
            assert(reports(r@) =~= reports(old_r).insert(at as int, d@));
        }
    }
    assert(all.skip(0) =~= all);
    r
}

fn sort_each(lists: Vec<Vec<Diagnostic>>) -> (r: Vec<Vec<Diagnostic>>)
    ensures
        filed(r@) == each_in_source_order(filed(lists@)),
{
    let ghost all = filed(lists@);
    let mut rest = lists;
    let mut back: Vec<Vec<Diagnostic>> = Vec::new();
    while rest.len() > 0
        invariant
            rest@.len() + back@.len() == all.len(),
            forall|i: int| 0 <= i < rest@.len() ==> #[trigger] reports(rest@[i]@) == all[i],
            forall|i: int|
                0 <= i < back@.len() ==> #[trigger] reports(back@[i]@) == in_source_order(
                    all[all.len() - 1 - i],
                ),
        decreases rest.len(),
    {
        let ghost n = rest@.len() as int;
        assert(reports(rest@[n - 1]@) == all[n - 1]);
        if let Some(list) = rest.pop() {
            back.push(sort(list));
        }
    }
    let mut r: Vec<Vec<Diagnostic>> = Vec::new();
    while back.len() > 0
        invariant
            back@.len() + r@.len() == all.len(),
            forall|i: int|
                0 <= i < back@.len() ==> #[trigger] reports(back@[i]@) == in_source_order(
                    all[all.len() - 1 - i],
                ),
            forall|i: int| 0 <= i < r@.len() ==> #[trigger] reports(r@[i]@) == in_source_order(all[i]),
        decreases back.len(),
    {
        let ghost n = back@.len() as int;
        assert(reports(back@[n - 1]@) == in_source_order(all[all.len() - n]));
        if let Some(list) = back.pop() {
            r.push(list);
        }
    }
    assert(filed(r@) =~= each_in_source_order(all));
    r
}

// ---------------------------------------------------------------- carrying it out

fn find_stem(name: &str) -> (r: String)
    ensures
        r@ == stem_of(name@),
{
    proof {
        reveal(stem_of);
        segments_nonempty(name@);
        reveal_strlit(".norn");
    }
    let parts = split(name);
    assert(texts(parts@).len() == parts@.len());
    let base = parts[parts.len() - 1].as_str();
    assert(base@ == segments(name@).last());
    if has_suffix(base, ".norn") {
        let n: usize = base.unicode_len();
        assert(base@.subrange(0, n - 5) =~= base@.take(n - 5));
        base.substring_char(0, n - 5).to_owned()
    } else {
        base.to_owned()
    }
}

fn index_keys(keys: &Vec<String>) -> (r: Table<usize>)
    ensures
        r@ == keyed(texts(keys@)),
{
    let mut r: Table<usize> = Table::new();
    let ghost all = texts(keys@);
    assert(all.take(0) =~= seq![]);
    for i in 0..keys.len()
        invariant
            all == texts(keys@),
            r@ == keyed(all.take(i as int)),
    {
        assert(all.take(i + 1).drop_last() =~= all.take(i as int));
        assert(all.take(i + 1).last() == keys@[i as int]@);
        r.insert_first(keys[i].as_str(), i);
    }
    assert(all.take(keys.len() as int) =~= all);
    r
}

impl Checker {
    fn introduce(&mut self, inputs: &[ModuleInput])
        ensures
            final(self)@ == introduced(old(self)@, files(inputs@)),
    {
        proof {
            reveal(Checker::view);
            reveal(introduced);
        }
        let mut names: Vec<String> = Vec::new();
        let mut keys: Vec<String> = Vec::new();
        let mut stems: Vec<String> = Vec::new();
        for i in 0..inputs.len()
            invariant
                names.len() == i,
                keys.len() == i,
                stems.len() == i,
                forall|j: int| 0 <= j < i ==> #[trigger] names@[j]@ == inputs@[j].name@,
                forall|j: int| 0 <= j < i ==> #[trigger] keys@[j]@ == inputs@[j].key@,
                forall|j: int| 0 <= j < i ==> #[trigger] stems@[j]@ == stem_of(inputs@[j].name@),
        {
            names.push(inputs[i].name.clone());
            keys.push(inputs[i].key.clone());
            stems.push(find_stem(inputs[i].name.as_str()));
        }
        assert(texts(names@) =~= input_names(files(inputs@)));
        assert(texts(keys@) =~= input_keys(files(inputs@)));
        assert(texts(stems@) =~= input_stems(files(inputs@)));
        self.key_index = index_keys(&keys);
        self.names = names;
        self.keys = keys;
        self.stems = stems;
    }

    fn phase(&mut self, p: Phase, module: &ast::Module)
        ensures
            final(self)@ == phase(old(self)@, p, *module),
    {
        proof {
            reveal(phase);
        }
        match p {
            Phase::CollectDecls => self.collect_decls(module),
            Phase::CheckSpecifiers => self.check_specifiers(module),
            Phase::DeclareTypes => self.declare_types(module),
            Phase::BindImports => self.bind_imports(module),
            Phase::DefineTypes => self.define_types(module),
            Phase::DefineTraits => self.define_traits(module),
            Phase::DeclareFns => self.declare_fns(module),
            Phase::DeclareImpls => self.declare_impls(module),
            Phase::DeclareReactors => self.declare_reactors(module),
            Phase::CheckFns => self.check_fns(module),
        }
    }

    fn each(&mut self, p: Phase, inputs: &[ModuleInput])
        ensures
            final(self)@ == each(old(self)@, p, files(inputs@)),
    {
        let ghost start = self@;
        let ghost all = files(inputs@);
        assert(all.take(0) =~= seq![]);
        for i in 0..inputs.len()
            invariant
                all == files(inputs@),
                self@ == each(start, p, all.take(i as int)),
        {
            assert(all.take(i + 1).drop_last() =~= all.take(i as int));
            self.set_current(i);
            self.phase(p, inputs[i].module);
        }
        assert(all.take(inputs.len() as int) =~= all);
    }

    fn know_signatures(&mut self, inputs: &[ModuleInput])
        ensures
            final(self)@ == signatures_known(old(self)@, files(inputs@)),
    {
        proof {
            reveal(signatures_known);
        }
        self.introduce(inputs);
        self.each(Phase::CollectDecls, inputs);
        self.each(Phase::CheckSpecifiers, inputs);
        self.each(Phase::DeclareTypes, inputs);
        self.each(Phase::BindImports, inputs);
        self.set_defining_types(true);
        self.each(Phase::DefineTypes, inputs);
        self.drain_type_fills();
        self.each(Phase::DefineTraits, inputs);
        self.each(Phase::DeclareFns, inputs);
        self.bind_fn_imports();
        self.each(Phase::DeclareImpls, inputs);
        self.each(Phase::DeclareReactors, inputs);
    }

    fn graphs(&mut self, inputs: &[ModuleInput]) -> (r: Vec<Vec<Wiring>>)
        ensures
            final(self)@ == graphs(old(self)@, files(inputs@)).0,
            wired(r@) == graphs(old(self)@, files(inputs@)).1,
            forall|i: int, j: int|
                0 <= i < r.len() && 0 <= j < r@[i].len() ==> (#[trigger] r@[i]@[j]).wf(),
    {
        let mut r: Vec<Vec<Wiring>> = Vec::new();
        let ghost start = self@;
        let ghost all = files(inputs@);
        assert(all.take(0) =~= seq![]);
        assert(wired(r@) =~= seq![]);
        for i in 0..inputs.len()
            invariant
                all == files(inputs@),
                r.len() == i,
                self@ == graphs(start, all.take(i as int)).0,
                wired(r@) == graphs(start, all.take(i as int)).1,
                forall|i: int, j: int|
                    0 <= i < r.len() && 0 <= j < r@[i].len() ==> (#[trigger] r@[i]@[j]).wf(),
        {
            assert(all.take(i + 1).drop_last() =~= all.take(i as int));
            self.set_current(i);
            let one = self.scan_reactors(inputs[i].module);
            let ghost was = wired(r@);
            r.push(one);
            assert(wired(r@) =~= was.push(wirings(one@)));
        }
        assert(all.take(inputs.len() as int) =~= all);
        r
    }

    fn check_bodies(&mut self, inputs: &[ModuleInput])
        ensures
            final(self)@ == bodies_checked(old(self)@, files(inputs@)),
    {
        proof {
            reveal(bodies_checked);
        }
        let ws = self.graphs(inputs);
        let ghost start = self@;
        let ghost all = files(inputs@);
        let ghost made = wired(ws@);
        proof {
            one_graph_each(old(self)@, files(inputs@));
        }
        assert(all.take(0) =~= seq![]);
        for i in 0..inputs.len()
            invariant
                all == files(inputs@),
                ws.len() == inputs.len(),
                made == wired(ws@),
                forall|i: int, j: int|
                    0 <= i < ws.len() && 0 <= j < ws@[i].len() ==> (#[trigger] ws@[i]@[j]).wf(),
                self@ == reactors_checked(start, all.take(i as int), made.take(i as int)),
        {
            assert(all.take(i + 1).drop_last() =~= all.take(i as int));
            assert(made.take(i + 1).drop_last() =~= made.take(i as int));
            assert(made.take(i + 1).last() == wirings(ws@[i as int]@));
            self.set_current(i);
            self.check_reactors(inputs[i].module, &ws[i]);
        }
        assert(all.take(inputs.len() as int) =~= all);
        assert(made.take(inputs.len() as int) =~= made);
        self.each(Phase::CheckFns, inputs);
    }
}

pub open spec fn wired(s: Seq<Vec<Wiring>>) -> Seq<Seq<Wires>> {
    Seq::new(s.len(), |i: int| wirings(s[i]@))
}

proof fn one_graph_each(s: State, inputs: Seq<File>)
    ensures
        graphs(s, inputs).1.len() == inputs.len(),
    decreases inputs.len(),
{
    if inputs.len() > 0 {
        one_graph_each(s, inputs.drop_last());
    }
}

/// Check a program of one or more files. The first is the entry: the one whose `main` counts, and
/// whose declarations keep their names as they are.
pub fn check_modules(inputs: &[ModuleInput], vocabulary: Vocabulary) -> (r: CheckedModules)
    ensures
        r.program@ == outcome(vocabulary@, files(inputs@)).program,
        filed(r.errors@) == each_in_source_order(outcome(vocabulary@, files(inputs@)).errors),
        r.errors@.len() == inputs@.len(),
{
    proof {
        reveal(outcome);
    }
    let ghost v = vocabulary@;
    let mut checker = Checker::new(inputs.len(), vocabulary);
    checker.know_signatures(inputs);
    checker.check_bodies(inputs);
    checker.monomorphize();
    proof {
        tables_stay_in_step(v, files(inputs@));
    }
    checker.whole_program();
    proof {
        reveal(Checker::view);
        assert(filed(checker.errors@) =~= reports_each(checker.errors@));
        every_file_has_its_reports(v, files(inputs@));
    }
    let errors = sort_each(checker.errors);
    assert(filed(errors@).len() == errors@.len());
    CheckedModules { program: checker.program, errors }
}

/// One file by itself, without a name and a key.
pub open spec fn alone(module: ast::Module) -> Seq<File> {
    seq![File { name: ""@, key: ""@, module }]
}

/// Check a program of a single file.
pub fn check(module: &ast::Module, vocabulary: Vocabulary) -> (r: Checked)
    ensures
        r.program@ == outcome(vocabulary@, alone(*module)).program,
        reports(r.errors@) == in_source_order(outcome(vocabulary@, alone(*module)).errors[0]),
{
    let ghost v = vocabulary@;
    let mut inputs: Vec<ModuleInput> = Vec::new();
    inputs.push(ModuleInput { name: "".to_owned(), key: "".to_owned(), module });
    assert(files(inputs@) =~= alone(*module));
    let checked = check_modules(inputs.as_slice(), vocabulary);
    let mut lists = checked.errors;
    let ghost all = filed(lists@);
    assert(all == each_in_source_order(outcome(v, alone(*module)).errors));
    proof {
        every_file_has_its_reports(v, alone(*module));
    }
    let errors = match lists.pop() {
        Some(list) => {
            assert(reports(list@) == all[0]);
            list
        },
        None => Vec::new(),
    };
    Checked { program: checked.program, errors }
}

impl Checked {
    /// Whether nothing is wrong with the program.
    pub fn ok(&self) -> (r: bool)
        ensures
            r == (self.errors@.len() == 0),
    {
        self.errors.len() == 0
    }
}

impl CheckedModules {
    /// Whether nothing is wrong with any file of the program.
    pub fn ok(&self) -> (r: bool)
        ensures
            r == forall|i: int| 0 <= i < self.errors@.len() ==> (#[trigger] self.errors@[i])@.len() == 0,
    {
        for i in 0..self.errors.len()
            invariant
                forall|j: int| 0 <= j < i ==> (#[trigger] self.errors@[j])@.len() == 0,
        {
            if self.errors[i].len() > 0 {
                return false;
            }
        }
        true
    }
}

} // verus!
