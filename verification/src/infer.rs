//! Inferring type arguments: matching a found type against a template's, and what a type mentions.

use vstd::prelude::*;
use crate::checker::Checker;
use crate::hir::{bindings, tys, Ty};
use crate::model;
use crate::span::texts;
use crate::state::State;

verus! {

/// How a struct or enum type is generic: not at all, as a template with that many parameters, or
/// as an instance with its arguments and its serial.
pub enum Parts {
    Plain,
    Template(nat),
    Instance(Seq<model::Ty>, usize),
}

impl State {
    #[verifier::opaque]
    pub open spec fn parts(self, ty: model::Ty) -> Parts {
        match ty {
            model::Ty::Struct(id) => match self.struct_instance(id) {
                Some(i) => Parts::Instance(i.args, i.serial),
                None => if self.struct_params(id).len() == 0 {
                    Parts::Plain
                } else {
                    Parts::Template(self.struct_params(id).len())
                },
            },
            model::Ty::Enum(id) => match self.enum_instance(id) {
                Some(i) => Parts::Instance(i.args, i.serial),
                None => if self.enum_params(id).len() == 0 {
                    Parts::Plain
                } else {
                    Parts::Template(self.enum_params(id).len())
                },
            },
            _ => Parts::Plain,
        }
    }

    /// The template a struct or enum type comes from, as a type, and its arguments.
    #[verifier::opaque]
    pub open spec fn base(self, ty: model::Ty) -> Option<(model::Ty, Seq<model::Ty>)> {
        match ty {
            model::Ty::Struct(id) => match self.struct_base(id) {
                Some((template, args)) => Some((model::Ty::Struct(template), args)),
                None => None,
            },
            model::Ty::Enum(id) => match self.enum_base(id) {
                Some((template, args)) => Some((model::Ty::Enum(template), args)),
                None => None,
            },
            _ => None,
        }
    }
}

/// Settle a parameter, unless it is settled: the first binding wins.
pub open spec fn bind_one(
    b: Seq<Option<model::Ty>>,
    index: u32,
    to: model::Ty,
) -> Seq<Option<model::Ty>> {
    if index < b.len() && b[index as int] is None {
        b.update(index as int, Some(to))
    } else {
        b
    }
}

/// Settle the first `n` parameters.
pub open spec fn bind_first(b: Seq<Option<model::Ty>>, n: nat, to: model::Ty) -> Seq<
    Option<model::Ty>,
>
    decreases n,
{
    if n == 0 {
        b
    } else {
        bind_one(bind_first(b, (n - 1) as nat, to), (n - 1) as u32, to)
    }
}

/// Bind every parameter a type mentions that is still unbound.
pub open spec fn bind_params(
    s: State,
    ty: model::Ty,
    b: Seq<Option<model::Ty>>,
    to: model::Ty,
    bound: usize,
) -> Seq<Option<model::Ty>>
    decreases bound, 1int, ty,
{
    match ty {
        model::Ty::Param { index, .. } => bind_one(b, index, to),
        model::Ty::Option(t) => bind_params(s, *t, b, to, bound),
        model::Ty::Task(t) => bind_params(s, *t, b, to, bound),
        model::Ty::Shared(t) => bind_params(s, *t, b, to, bound),
        model::Ty::Slots(t) => bind_params(s, *t, b, to, bound),
        model::Ty::Input(t) => bind_params(s, *t, b, to, bound),
        model::Ty::Signal(t) => bind_params(s, *t, b, to, bound),
        model::Ty::Event(t) => bind_params(s, *t, b, to, bound),
        model::Ty::Ref(t) => bind_params(s, *t, b, to, bound),
        model::Ty::Result(t, e) => bind_params(
            s,
            *e,
            bind_params(s, *t, b, to, bound),
            to,
            bound,
        ),
        _ => match s.parts(ty) {
            Parts::Instance(args, serial) => if serial < bound {
                bind_params_all(s, args, b, to, serial)
            } else {
                b
            },
            Parts::Template(n) => bind_first(b, n, to),
            Parts::Plain => b,
        },
    }
}

pub open spec fn bind_params_all(
    s: State,
    list: Seq<model::Ty>,
    b: Seq<Option<model::Ty>>,
    to: model::Ty,
    bound: usize,
) -> Seq<Option<model::Ty>>
    decreases bound, 1int, list,
{
    if list.len() == 0 {
        b
    } else {
        bind_params(s, list.last(), bind_params_all(s, list.drop_last(), b, to, bound), to, bound)
    }
}

/// What one parameter learns from a found type: nothing from `Never`.
pub open spec fn learn(
    b: Seq<Option<model::Ty>>,
    index: u32,
    found: model::Ty,
) -> Seq<Option<model::Ty>> {
    if found is Never {
        b
    } else {
        bind_one(b, index, found)
    }
}

/// What the first `n` parameters learn from as many found types.
pub open spec fn learn_first(
    b: Seq<Option<model::Ty>>,
    n: nat,
    found: Seq<model::Ty>,
) -> Seq<Option<model::Ty>>
    decreases n,
{
    if n == 0 {
        b
    } else {
        let b1 = learn_first(b, (n - 1) as nat, found);
        if n <= found.len() {
            learn(b1, (n - 1) as u32, found[n - 1])
        } else {
            b1
        }
    }
}

/// One-way match of `found` against a template-side type, binding parameters as they are met.
/// `Never` teaches nothing; `Error` binds what is mentioned to `Error`, so that one bad argument
/// is not reported twice. A disagreement is not reported here.
pub open spec fn solve(
    s: State,
    param: model::Ty,
    found: model::Ty,
    b: Seq<Option<model::Ty>>,
    bound: usize,
) -> Seq<Option<model::Ty>>
    decreases bound, 2int, param,
{
    if found is Never {
        b
    } else if found is Error {
        bind_params(s, param, b, model::Ty::Error, bound)
    } else {
        match (param, found) {
            (model::Ty::Param { index, .. }, _) => bind_one(b, index, found),
            (model::Ty::Option(p), model::Ty::Option(f)) => solve(s, *p, *f, b, bound),
            (model::Ty::Task(p), model::Ty::Task(f)) => solve(s, *p, *f, b, bound),
            (model::Ty::Shared(p), model::Ty::Shared(f)) => solve(s, *p, *f, b, bound),
            (model::Ty::Slots(p), model::Ty::Slots(f)) => solve(s, *p, *f, b, bound),
            (model::Ty::Input(p), model::Ty::Input(f)) => solve(s, *p, *f, b, bound),
            (model::Ty::Signal(p), model::Ty::Signal(f)) => solve(s, *p, *f, b, bound),
            (model::Ty::Event(p), model::Ty::Event(f)) => solve(s, *p, *f, b, bound),
            (model::Ty::Result(p, q), model::Ty::Result(f, g)) => solve(
                s,
                *q,
                *g,
                solve(s, *p, *f, b, bound),
                bound,
            ),
            _ => match (s.base(param), s.base(found)) {
                (Some((pt, _)), Some((ft, found_args))) => if pt == ft {
                    match s.parts(param) {
                        Parts::Instance(args, serial) => if serial < bound {
                            solve_all(s, args, found_args, b, serial)
                        } else {
                            b
                        },
                        Parts::Template(n) => learn_first(b, n, found_args),
                        Parts::Plain => b,
                    }
                } else {
                    b
                },
                _ => b,
            },
        }
    }
}

pub open spec fn solve_all(
    s: State,
    params: Seq<model::Ty>,
    found: Seq<model::Ty>,
    b: Seq<Option<model::Ty>>,
    bound: usize,
) -> Seq<Option<model::Ty>>
    decreases bound, 2int, params,
{
    if params.len() == 0 {
        b
    } else {
        let b1 = solve_all(s, params.drop_last(), found, b, bound);
        if params.len() <= found.len() {
            solve(s, params.last(), found[params.len() - 1], b1, bound)
        } else {
            b1
        }
    }
}

/// Whether a parameter has not been settled.
pub open spec fn open_at(b: Seq<Option<model::Ty>>, index: u32) -> bool {
    !(index < b.len() && b[index as int] is Some)
}

/// Whether a type mentions a parameter that has not been settled.
pub open spec fn mentions_unbound(
    s: State,
    ty: model::Ty,
    b: Seq<Option<model::Ty>>,
    bound: usize,
) -> bool
    decreases bound, 1int, ty,
{
    match ty {
        model::Ty::Param { index, .. } => open_at(b, index),
        model::Ty::Option(t) => mentions_unbound(s, *t, b, bound),
        model::Ty::Task(t) => mentions_unbound(s, *t, b, bound),
        model::Ty::Shared(t) => mentions_unbound(s, *t, b, bound),
        model::Ty::Slots(t) => mentions_unbound(s, *t, b, bound),
        model::Ty::Input(t) => mentions_unbound(s, *t, b, bound),
        model::Ty::Signal(t) => mentions_unbound(s, *t, b, bound),
        model::Ty::Event(t) => mentions_unbound(s, *t, b, bound),
        model::Ty::Ref(t) => mentions_unbound(s, *t, b, bound),
        model::Ty::Result(t, e) => mentions_unbound(s, *t, b, bound) || mentions_unbound(
            s,
            *e,
            b,
            bound,
        ),
        _ => match s.parts(ty) {
            Parts::Instance(args, serial) => serial < bound && any_unbound(s, args, b, serial),
            Parts::Template(n) => first_unbound(b, n),
            Parts::Plain => false,
        },
    }
}

/// Whether one of the first `n` parameters has not been settled.
pub open spec fn first_unbound(b: Seq<Option<model::Ty>>, n: nat) -> bool
    decreases n,
{
    n > 0 && (first_unbound(b, (n - 1) as nat) || open_at(b, (n - 1) as u32))
}

pub open spec fn any_unbound(
    s: State,
    list: Seq<model::Ty>,
    b: Seq<Option<model::Ty>>,
    bound: usize,
) -> bool
    decreases bound, 1int, list,
{
    list.len() > 0 && (any_unbound(s, list.drop_last(), b, bound) || mentions_unbound(
        s,
        list.last(),
        b,
        bound,
    ))
}

/// Whether a type mentions any type parameter at all, looking through instance arguments.
pub open spec fn mentions_param(s: State, ty: model::Ty, bound: usize) -> bool
    decreases bound, 1int, ty,
{
    match ty {
        model::Ty::Param { .. } => true,
        model::Ty::Option(t) => mentions_param(s, *t, bound),
        model::Ty::Task(t) => mentions_param(s, *t, bound),
        model::Ty::Shared(t) => mentions_param(s, *t, bound),
        model::Ty::Slots(t) => mentions_param(s, *t, bound),
        model::Ty::Input(t) => mentions_param(s, *t, bound),
        model::Ty::Signal(t) => mentions_param(s, *t, bound),
        model::Ty::Event(t) => mentions_param(s, *t, bound),
        model::Ty::Ref(t) => mentions_param(s, *t, bound),
        model::Ty::Result(t, e) => mentions_param(s, *t, bound) || mentions_param(s, *e, bound),
        _ => match s.parts(ty) {
            Parts::Instance(args, serial) => serial < bound && any_param(s, args, serial),
            Parts::Template(n) => true,
            Parts::Plain => false,
        },
    }
}

pub open spec fn any_param(s: State, list: Seq<model::Ty>, bound: usize) -> bool
    decreases bound, 1int, list,
{
    list.len() > 0 && (any_param(s, list.drop_last(), bound) || mentions_param(
        s,
        list.last(),
        bound,
    ))
}

// ---------------------------------------------------------------- carrying it out

/// How a struct or enum type is generic.
pub enum PartsMade {
    Plain,
    Template(usize),
    Instance(Vec<Ty>, usize),
}

impl PartsMade {
    pub open spec fn view(&self) -> Parts {
        match self {
            PartsMade::Plain => Parts::Plain,
            PartsMade::Template(n) => Parts::Template(*n as nat),
            PartsMade::Instance(args, serial) => Parts::Instance(tys(args@), *serial),
        }
    }
}

pub open spec fn base_tys(r: Option<(Ty, Vec<Ty>)>) -> Option<(model::Ty, Seq<model::Ty>)> {
    match r {
        Some((t, args)) => Some((t@, tys(args@))),
        None => None,
    }
}

fn bind_to(b: &mut Vec<Option<Ty>>, index: u32, to: &Ty)
    ensures
        bindings(final(b)@) == bind_one(bindings(old(b)@), index, to@),
{
    let at: usize = index as usize;
    if at < b.len() {
        if b[at].is_none() {
            b.set(at, Some(to.copy()));
            assert(bindings(b@) =~= bindings(old(b)@).update(at as int, Some(to@)));
        }
    }
}

fn is_open(b: &Vec<Option<Ty>>, index: u32) -> (r: bool)
    ensures
        r == open_at(bindings(b@), index),
{
    let at: usize = index as usize;
    !(at < b.len() && b[at].is_some())
}

impl Checker {
    pub fn parts(&self, ty: &Ty) -> (r: PartsMade)
        ensures
            r@ == self@.parts(ty@),
    {
        proof {
            reveal(State::parts);
        }
        match ty {
            Ty::Struct(id) => match self.struct_instance(*id) {
                Some((_, args, serial)) => PartsMade::Instance(args, serial),
                None => {
                    let params = self.struct_params(*id);
                    assert(texts(params@).len() == params@.len());
                    if params.len() == 0 {
                        PartsMade::Plain
                    } else {
                        PartsMade::Template(params.len())
                    }
                },
            },
            Ty::Enum(id) => match self.enum_instance(*id) {
                Some((_, args, serial)) => PartsMade::Instance(args, serial),
                None => {
                    let params = self.enum_params(*id);
                    assert(texts(params@).len() == params@.len());
                    if params.len() == 0 {
                        PartsMade::Plain
                    } else {
                        PartsMade::Template(params.len())
                    }
                },
            },
            _ => PartsMade::Plain,
        }
    }

    pub fn base(&self, ty: &Ty) -> (r: Option<(Ty, Vec<Ty>)>)
        ensures
            base_tys(r) == self@.base(ty@),
    {
        proof {
            reveal(State::base);
        }
        match ty {
            Ty::Struct(id) => match self.struct_base(*id) {
                Some((template, args)) => Some((Ty::Struct(template), args)),
                None => None,
            },
            Ty::Enum(id) => match self.enum_base(*id) {
                Some((template, args)) => Some((Ty::Enum(template), args)),
                None => None,
            },
            _ => None,
        }
    }

    pub fn bind_params(&self, ty: &Ty, b: &mut Vec<Option<Ty>>, to: &Ty, bound: usize)
        ensures
            bindings(final(b)@) == bind_params(self@, ty@, bindings(old(b)@), to@, bound),
        decreases bound, 1int, ty,
    {
        match ty {
            Ty::Param { index, .. } => bind_to(b, *index, to),
            Ty::Option(t) => self.bind_params(t, b, to, bound),
            Ty::Task(t) => self.bind_params(t, b, to, bound),
            Ty::Shared(t) => self.bind_params(t, b, to, bound),
            Ty::Slots(t) => self.bind_params(t, b, to, bound),
            Ty::Input(t) => self.bind_params(t, b, to, bound),
            Ty::Signal(t) => self.bind_params(t, b, to, bound),
            Ty::Event(t) => self.bind_params(t, b, to, bound),
            Ty::Ref(t) => self.bind_params(t, b, to, bound),
            Ty::Result(t, e) => {
                self.bind_params(t, b, to, bound);
                self.bind_params(e, b, to, bound);
            },
            _ => match self.parts(ty) {
                PartsMade::Instance(args, serial) => {
                    if serial < bound {
                        self.bind_params_all(&args, b, to, serial);
                    }
                },
                PartsMade::Template(n) => bind_first_to(b, n, to),
                PartsMade::Plain => {},
            },
        }
    }

    fn bind_params_all(&self, list: &Vec<Ty>, b: &mut Vec<Option<Ty>>, to: &Ty, bound: usize)
        ensures
            bindings(final(b)@) == bind_params_all(
                self@,
                tys(list@),
                bindings(old(b)@),
                to@,
                bound,
            ),
        decreases bound, 1int, list,
    {
        let ghost all = tys(list@);
        let ghost start = bindings(b@);
        assert(all.take(0) =~= seq![]);
        for i in 0..list.len()
            invariant
                all == tys(list@),
                bindings(b@) == bind_params_all(self@, all.take(i as int), start, to@, bound),
        {
            self.bind_params(&list[i], b, to, bound);
            assert(all.take(i + 1).drop_last() =~= all.take(i as int));
        }
        assert(all.take(list.len() as int) =~= all);
    }

    /// Match `found` against a template-side type.
    pub fn solve(&self, param: &Ty, found: &Ty, b: &mut Vec<Option<Ty>>, bound: usize)
        ensures
            bindings(final(b)@) == solve(self@, param@, found@, bindings(old(b)@), bound),
        decreases bound, 2int, param,
    {
        match found {
            Ty::Never => {
                return ;
            },
            Ty::Error => {
                self.bind_params(param, b, &Ty::Error, bound);
                return ;
            },
            _ => {},
        }
        match (param, found) {
            (Ty::Param { index, .. }, _) => bind_to(b, *index, found),
            (Ty::Option(p), Ty::Option(f)) => self.solve(p, f, b, bound),
            (Ty::Task(p), Ty::Task(f)) => self.solve(p, f, b, bound),
            (Ty::Shared(p), Ty::Shared(f)) => self.solve(p, f, b, bound),
            (Ty::Slots(p), Ty::Slots(f)) => self.solve(p, f, b, bound),
            (Ty::Input(p), Ty::Input(f)) => self.solve(p, f, b, bound),
            (Ty::Signal(p), Ty::Signal(f)) => self.solve(p, f, b, bound),
            (Ty::Event(p), Ty::Event(f)) => self.solve(p, f, b, bound),
            (Ty::Result(p, q), Ty::Result(f, g)) => {
                self.solve(p, f, b, bound);
                self.solve(q, g, b, bound);
            },
            _ => self.solve_base(param, found, b, bound),
        }
    }

    fn solve_base(&self, param: &Ty, found: &Ty, b: &mut Vec<Option<Ty>>, bound: usize)
        ensures
            bindings(final(b)@) == match (self@.base(param@), self@.base(found@)) {
                (Some((pt, _)), Some((ft, found_args))) => if pt == ft {
                    match self@.parts(param@) {
                        Parts::Instance(args, serial) => if serial < bound {
                            solve_all(self@, args, found_args, bindings(old(b)@), serial)
                        } else {
                            bindings(old(b)@)
                        },
                        Parts::Template(n) => learn_first(bindings(old(b)@), n, found_args),
                        Parts::Plain => bindings(old(b)@),
                    }
                } else {
                    bindings(old(b)@)
                },
                _ => bindings(old(b)@),
            },
        decreases bound, 1int,
    {
        let (pt, ft, found_args) = match (self.base(param), self.base(found)) {
            (Some((pt, _)), Some((ft, args))) => (pt, ft, args),
            _ => {
                return ;
            },
        };
        if !pt.equals(&ft) {
            return ;
        }
        match self.parts(param) {
            PartsMade::Instance(args, serial) => {
                if serial < bound {
                    self.solve_all(&args, &found_args, b, serial);
                }
            },
            PartsMade::Template(n) => learn_first_from(b, n, &found_args),
            PartsMade::Plain => {},
        }
    }

    fn solve_all(
        &self,
        params: &Vec<Ty>,
        found: &Vec<Ty>,
        b: &mut Vec<Option<Ty>>,
        bound: usize,
    )
        ensures
            bindings(final(b)@) == solve_all(
                self@,
                tys(params@),
                tys(found@),
                bindings(old(b)@),
                bound,
            ),
        decreases bound, 2int, params,
    {
        let ghost all = tys(params@);
        let ghost start = bindings(b@);
        assert(all.take(0) =~= seq![]);
        for i in 0..params.len()
            invariant
                all == tys(params@),
                bindings(b@) == solve_all(
                    self@,
                    all.take(i as int),
                    tys(found@),
                    start,
                    bound,
                ),
        {
            assert(all.take(i + 1).drop_last() =~= all.take(i as int));
            if i < found.len() {
                self.solve(&params[i], &found[i], b, bound);
            }
        }
        assert(all.take(params.len() as int) =~= all);
    }

    pub fn mentions_unbound(&self, ty: &Ty, b: &Vec<Option<Ty>>, bound: usize) -> (r: bool)
        ensures
            r == mentions_unbound(self@, ty@, bindings(b@), bound),
        decreases bound, 1int, ty,
    {
        match ty {
            Ty::Param { index, .. } => is_open(b, *index),
            Ty::Option(t) => self.mentions_unbound(t, b, bound),
            Ty::Task(t) => self.mentions_unbound(t, b, bound),
            Ty::Shared(t) => self.mentions_unbound(t, b, bound),
            Ty::Slots(t) => self.mentions_unbound(t, b, bound),
            Ty::Input(t) => self.mentions_unbound(t, b, bound),
            Ty::Signal(t) => self.mentions_unbound(t, b, bound),
            Ty::Event(t) => self.mentions_unbound(t, b, bound),
            Ty::Ref(t) => self.mentions_unbound(t, b, bound),
            Ty::Result(t, e) => {
                let first = self.mentions_unbound(t, b, bound);
                first || self.mentions_unbound(e, b, bound)
            },
            _ => match self.parts(ty) {
                PartsMade::Instance(args, serial) => serial < bound && self.any_unbound(
                    &args,
                    b,
                    serial,
                ),
                PartsMade::Template(n) => {
                    for i in 0..n
                        invariant
                            !first_unbound(bindings(b@), i as nat),
                            self@.parts(ty@) == Parts::Template(n as nat),
                            mentions_unbound(self@, ty@, bindings(b@), bound) == first_unbound(
                                bindings(b@),
                                n as nat,
                            ),
                    {
                        let index: u32 = #[verifier::truncate]
                        (i as u32);
                        if is_open(b, index) {
                            proof {
                                unbound_stays(bindings(b@), (i + 1) as nat, n as nat);
                            }
                            return true;
                        }
                    }
                    false
                },
                PartsMade::Plain => false,
            },
        }
    }

    fn any_unbound(&self, list: &Vec<Ty>, b: &Vec<Option<Ty>>, bound: usize) -> (r: bool)
        ensures
            r == any_unbound(self@, tys(list@), bindings(b@), bound),
        decreases bound, 1int, list,
    {
        let ghost all = tys(list@);
        let mut found: bool = false;
        assert(all.take(0) =~= seq![]);
        for i in 0..list.len()
            invariant
                all == tys(list@),
                found == any_unbound(self@, all.take(i as int), bindings(b@), bound),
        {
            assert(all.take(i + 1).drop_last() =~= all.take(i as int));
            if !found {
                found = self.mentions_unbound(&list[i], b, bound);
            }
        }
        assert(all.take(list.len() as int) =~= all);
        found
    }

    pub fn mentions_param(&self, ty: &Ty, bound: usize) -> (r: bool)
        ensures
            r == mentions_param(self@, ty@, bound),
        decreases bound, 1int, ty,
    {
        match ty {
            Ty::Param { .. } => true,
            Ty::Option(t) => self.mentions_param(t, bound),
            Ty::Task(t) => self.mentions_param(t, bound),
            Ty::Shared(t) => self.mentions_param(t, bound),
            Ty::Slots(t) => self.mentions_param(t, bound),
            Ty::Input(t) => self.mentions_param(t, bound),
            Ty::Signal(t) => self.mentions_param(t, bound),
            Ty::Event(t) => self.mentions_param(t, bound),
            Ty::Ref(t) => self.mentions_param(t, bound),
            Ty::Result(t, e) => {
                let first = self.mentions_param(t, bound);
                first || self.mentions_param(e, bound)
            },
            _ => match self.parts(ty) {
                PartsMade::Instance(args, serial) => serial < bound && self.any_param(
                    &args,
                    serial,
                ),
                PartsMade::Template(_) => true,
                PartsMade::Plain => false,
            },
        }
    }

    pub fn any_param(&self, list: &Vec<Ty>, bound: usize) -> (r: bool)
        ensures
            r == any_param(self@, tys(list@), bound),
        decreases bound, 1int, list,
    {
        let ghost all = tys(list@);
        let mut found: bool = false;
        assert(all.take(0) =~= seq![]);
        for i in 0..list.len()
            invariant
                all == tys(list@),
                found == any_param(self@, all.take(i as int), bound),
        {
            assert(all.take(i + 1).drop_last() =~= all.take(i as int));
            if !found {
                found = self.mentions_param(&list[i], bound);
            }
        }
        assert(all.take(list.len() as int) =~= all);
        found
    }
}

proof fn unbound_stays(b: Seq<Option<model::Ty>>, m: nat, n: nat)
    requires
        m <= n,
        first_unbound(b, m),
    ensures
        first_unbound(b, n),
    decreases n,
{
    if m < n {
        unbound_stays(b, m, (n - 1) as nat);
    }
}

fn bind_first_to(b: &mut Vec<Option<Ty>>, n: usize, to: &Ty)
    ensures
        bindings(final(b)@) == bind_first(bindings(old(b)@), n as nat, to@),
{
    let ghost start = bindings(b@);
    for i in 0..n
        invariant
            bindings(b@) == bind_first(start, i as nat, to@),
    {
        let index: u32 = #[verifier::truncate]
        (i as u32);
        bind_to(b, index, to);
    }
}

fn learn_first_from(b: &mut Vec<Option<Ty>>, n: usize, found: &Vec<Ty>)
    ensures
        bindings(final(b)@) == learn_first(bindings(old(b)@), n as nat, tys(found@)),
{
    let ghost start = bindings(b@);
    for i in 0..n
        invariant
            bindings(b@) == learn_first(start, i as nat, tys(found@)),
    {
        if i < found.len() {
            let index: u32 = #[verifier::truncate]
            (i as u32);
            match &found[i] {
                Ty::Never => {},
                other => bind_to(b, index, other),
            }
        }
    }
}

// ---------------------------------------------------------------- laws

/// What is settled stays settled, whatever is matched afterwards: the first binding wins.
pub proof fn first_binding_wins(
    s: State,
    param: model::Ty,
    found: model::Ty,
    b: Seq<Option<model::Ty>>,
    bound: usize,
    k: int,
)
    requires
        0 <= k < b.len(),
        b[k] is Some,
    ensures
        solve(s, param, found, b, bound).len() == b.len(),
        solve(s, param, found, b, bound)[k] == b[k],
    decreases bound, 2int, param,
{
    let r = solve(s, param, found, b, bound);
    if found is Never {
    } else if found is Error {
        bound_stay_bound(s, param, b, model::Ty::Error, bound, k);
    } else {
        match (param, found) {
            (model::Ty::Option(p), model::Ty::Option(f)) => first_binding_wins(s, *p, *f, b, bound, k),
            (model::Ty::Task(p), model::Ty::Task(f)) => first_binding_wins(s, *p, *f, b, bound, k),
            (model::Ty::Shared(p), model::Ty::Shared(f)) => first_binding_wins(s, *p, *f, b, bound, k),
            (model::Ty::Slots(p), model::Ty::Slots(f)) => first_binding_wins(s, *p, *f, b, bound, k),
            (model::Ty::Input(p), model::Ty::Input(f)) => first_binding_wins(s, *p, *f, b, bound, k),
            (model::Ty::Signal(p), model::Ty::Signal(f)) => first_binding_wins(s, *p, *f, b, bound, k),
            (model::Ty::Event(p), model::Ty::Event(f)) => first_binding_wins(s, *p, *f, b, bound, k),
            (model::Ty::Result(p, q), model::Ty::Result(f, g)) => {
                first_binding_wins(s, *p, *f, b, bound, k);
                first_binding_wins(s, *q, *g, solve(s, *p, *f, b, bound), bound, k);
            },
            _ => match (s.base(param), s.base(found)) {
                (Some((pt, _)), Some((ft, found_args))) => {
                    match s.parts(param) {
                        Parts::Instance(args, serial) => {
                            if serial < bound {
                                first_bindings_win(s, args, found_args, b, serial, k);
                            }
                        },
                        Parts::Template(n) => learned_stay(b, n, found_args, k),
                        Parts::Plain => {},
                    }
                },
                _ => {},
            },
        }
    }
}

proof fn first_bindings_win(
    s: State,
    params: Seq<model::Ty>,
    found: Seq<model::Ty>,
    b: Seq<Option<model::Ty>>,
    bound: usize,
    k: int,
)
    requires
        0 <= k < b.len(),
        b[k] is Some,
    ensures
        solve_all(s, params, found, b, bound).len() == b.len(),
        solve_all(s, params, found, b, bound)[k] == b[k],
    decreases bound, 2int, params,
{
    if params.len() > 0 {
        first_bindings_win(s, params.drop_last(), found, b, bound, k);
        if params.len() <= found.len() {
            first_binding_wins(
                s,
                params.last(),
                found[params.len() - 1],
                solve_all(s, params.drop_last(), found, b, bound),
                bound,
                k,
            );
        }
    }
}

proof fn learned_stay(b: Seq<Option<model::Ty>>, n: nat, found: Seq<model::Ty>, k: int)
    requires
        0 <= k < b.len(),
        b[k] is Some,
    ensures
        learn_first(b, n, found).len() == b.len(),
        learn_first(b, n, found)[k] == b[k],
    decreases n,
{
    if n > 0 {
        learned_stay(b, (n - 1) as nat, found, k);
    }
}

proof fn bound_first_stay(b: Seq<Option<model::Ty>>, n: nat, to: model::Ty, k: int)
    requires
        0 <= k < b.len(),
        b[k] is Some,
    ensures
        bind_first(b, n, to).len() == b.len(),
        bind_first(b, n, to)[k] == b[k],
    decreases n,
{
    if n > 0 {
        bound_first_stay(b, (n - 1) as nat, to, k);
    }
}

pub proof fn bound_stay_bound(
    s: State,
    ty: model::Ty,
    b: Seq<Option<model::Ty>>,
    to: model::Ty,
    bound: usize,
    k: int,
)
    requires
        0 <= k < b.len(),
        b[k] is Some,
    ensures
        bind_params(s, ty, b, to, bound).len() == b.len(),
        bind_params(s, ty, b, to, bound)[k] == b[k],
    decreases bound, 1int, ty,
{
    match ty {
        model::Ty::Option(t) => bound_stay_bound(s, *t, b, to, bound, k),
        model::Ty::Task(t) => bound_stay_bound(s, *t, b, to, bound, k),
        model::Ty::Shared(t) => bound_stay_bound(s, *t, b, to, bound, k),
        model::Ty::Slots(t) => bound_stay_bound(s, *t, b, to, bound, k),
        model::Ty::Input(t) => bound_stay_bound(s, *t, b, to, bound, k),
        model::Ty::Signal(t) => bound_stay_bound(s, *t, b, to, bound, k),
        model::Ty::Event(t) => bound_stay_bound(s, *t, b, to, bound, k),
        model::Ty::Ref(t) => bound_stay_bound(s, *t, b, to, bound, k),
        model::Ty::Result(t, e) => {
            bound_stay_bound(s, *t, b, to, bound, k);
            bound_stay_bound(s, *e, bind_params(s, *t, b, to, bound), to, bound, k);
        },
        _ => match s.parts(ty) {
            Parts::Instance(args, serial) => {
                if serial < bound {
                    all_stay_bound(s, args, b, to, serial, k);
                }
            },
            Parts::Template(n) => bound_first_stay(b, n, to, k),
            Parts::Plain => {},
        },
    }
}

proof fn all_stay_bound(
    s: State,
    list: Seq<model::Ty>,
    b: Seq<Option<model::Ty>>,
    to: model::Ty,
    bound: usize,
    k: int,
)
    requires
        0 <= k < b.len(),
        b[k] is Some,
    ensures
        bind_params_all(s, list, b, to, bound).len() == b.len(),
        bind_params_all(s, list, b, to, bound)[k] == b[k],
    decreases bound, 1int, list,
{
    if list.len() > 0 {
        all_stay_bound(s, list.drop_last(), b, to, bound, k);
        bound_stay_bound(
            s,
            list.last(),
            bind_params_all(s, list.drop_last(), b, to, bound),
            to,
            bound,
            k,
        );
    }
}

} // verus!
