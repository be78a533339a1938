//! The passes over the whole program, once every body is typed: what turns may reach, which
//! parameters are handed over, and what is used after it was.

use vstd::prelude::*;
use crate::checker::{modes_of, pins_of, reports_each, Checker};
use crate::filing::{file_each, filed};
use crate::hir::{fns_of, Mode};
use crate::model;
use crate::moves::{check_moves, moves_filed, rows};
use crate::sink::{
    infer_sinks, padded, padded_pins, pin_rows, pins, settled_table_is_unique, settles, unowned,
};
use crate::state::State;
use crate::turns::{
    all_turns, backpressures, check_effect_backpressure, check_turns, turns_added, Modules,
};

verus! {

/// A list cut or filled up to a length.
pub open spec fn resized<T>(list: Seq<T>, n: nat, fill: T) -> Seq<T> {
    Seq::new(
        n,
        |i: int|
            if i < list.len() {
                list[i]
            } else {
                fill
            },
    )
}

pub open spec fn modules_of(s: State) -> Modules {
    Modules { names: s.names, fn_owner: s.fn_owner }
}

/// What a turn reaches must be pure, and must end.
#[verifier::opaque]
pub open spec fn turns_checked(s: State) -> State {
    let turns = all_turns(s.program, s.reactor_owner, s.program.reactors.len());
    State {
        errors: turns_added(
            s.program,
            s.vocabulary,
            modules_of(s),
            turns,
            s.errors,
            turns.len(),
        ),
        ..s
    }
}

/// What an effect reaches must not wait for room in a mailbox.
#[verifier::opaque]
pub open spec fn effects_checked(s: State) -> State {
    State {
        errors: file_each(
            s.errors,
            backpressures(s.program, modules_of(s), s.program.fns.len()),
        ),
        ..s
    }
}

/// The table of modes that inference settles on. There is exactly one.
pub open spec fn settled_modes(
    p: model::Program,
    v: model::Vocabulary,
    pinned: Seq<Seq<bool>>,
    written: Seq<Seq<Mode>>,
) -> Seq<Seq<Mode>> {
    choose|modes: Seq<Seq<Mode>>| settles(p, v, pinned, written, modes)
}

/// Which parameters are handed over.
#[verifier::opaque]
pub open spec fn sinks_inferred(s: State) -> State {
    let pinned = padded_pins(s.program, s.mode_pinned);
    let modes = settled_modes(s.program, s.vocabulary, pinned, padded(s.program, s.param_modes));
    State {
        mode_pinned: pinned,
        param_modes: modes,
        errors: file_each(
            file_each(
                s.errors,
                pins(s.program, s.vocabulary, pinned, modes, s.fn_owner, s.program.fns.len()),
            ),
            unowned(s.program, s.vocabulary, modes, s.fn_owner, s.program.fns.len()),
        ),
        ..s
    }
}

/// Nothing is used after it was handed over.
#[verifier::opaque]
pub open spec fn moves_checked(s: State) -> State {
    State {
        errors: moves_filed(
            s.program,
            s.vocabulary,
            s.param_modes,
            s.fn_owner,
            s.errors,
            s.program.fns.len(),
        ),
        ..s
    }
}

pub open spec fn mode_row(modes: Seq<Seq<Mode>>, index: int, params: usize) -> Seq<Mode> {
    resized(
        if 0 <= index < modes.len() {
            modes[index]
        } else {
            seq![]
        },
        params as nat,
        Mode::Read,
    )
}

pub open spec fn fns_with_modes(fns: Seq<model::FnDef>, modes: Seq<Seq<Mode>>) -> Seq<
    model::FnDef,
> {
    Seq::new(
        fns.len(),
        |i: int| model::FnDef { modes: mode_row(modes, i, fns[i].params), ..fns[i] },
    )
}

/// The settled modes as part of the program.
#[verifier::opaque]
pub open spec fn modes_published(s: State) -> State {
    State {
        program: model::Program {
            fns: fns_with_modes(s.program.fns, s.param_modes),
            ..s.program
        },
        ..s
    }
}

/// Every pass over the whole program, in order.
#[verifier::opaque]
pub open spec fn whole_program(s: State) -> State {
    modes_published(
        moves_checked(sinks_inferred(effects_checked(turns_checked(s)))),
    )
}

// ---------------------------------------------------------------- carrying it out

fn resize_plain<T: Copy>(list: &mut Vec<T>, n: usize, fill: T)
    ensures
        final(list)@ == resized(old(list)@, n as nat, fill),
{
    if list.len() > n {
        list.truncate(n);
    }
    let ghost start = list@;
    while list.len() < n
        invariant
            start.len() <= list.len() <= n,
            list@ == resized(start, list@.len(), fill),
        decreases n - list.len(),
    {
        let ghost before = list@;
        list.push(fill);
        assert(list@ =~= resized(start, list@.len(), fill));
    }
    assert(list@ =~= resized(old(list)@, n as nat, fill));
}

fn mode_row_of(modes: &Vec<Vec<Mode>>, index: usize, params: usize) -> (r: Vec<Mode>)
    ensures
        r@ == mode_row(modes_of(modes@), index as int, params),
{
    let mut r: Vec<Mode> = Vec::new();
    if index < modes.len() {
        r = crate::copies::plain(&modes[index]);
    }
    assert(r@ =~= if index < modes_of(modes@).len() {
        modes_of(modes@)[index as int]
    } else {
        seq![]
    });
    resize_plain(&mut r, params, Mode::Read);
    r
}

impl Checker {
    fn run_turns(&mut self)
        requires
            old(self)@.reactor_owner.len() == old(self)@.program.reactors.len(),
        ensures
            final(self)@ == turns_checked(old(self)@),
    {
        proof {
            reveal(Checker::view);
            reveal(turns_checked);
        }
        assert(filed(self.errors@) =~= reports_each(self.errors@));
        check_turns(
            &self.program,
            &self.vocabulary,
            &self.names,
            &self.fn_owner,
            &self.reactor_owner,
            &mut self.errors,
        );
        assert(filed(self.errors@) =~= reports_each(self.errors@));
    }

    fn run_effects(&mut self)
        requires
            old(self)@.fn_owner.len() == old(self)@.program.fns.len(),
        ensures
            final(self)@ == effects_checked(old(self)@),
    {
        proof {
            reveal(Checker::view);
            reveal(effects_checked);
        }
        assert(filed(self.errors@) =~= reports_each(self.errors@));
        check_effect_backpressure(
            &self.program,
            &self.names,
            &self.fn_owner,
            &mut self.errors,
        );
        assert(filed(self.errors@) =~= reports_each(self.errors@));
    }

    fn run_sinks(&mut self)
        requires
            old(self)@.fn_owner.len() == old(self)@.program.fns.len(),
            old(self)@.param_modes.len() == old(self)@.program.fns.len(),
            old(self)@.mode_pinned.len() == old(self)@.program.fns.len(),
        ensures
            final(self)@ == sinks_inferred(old(self)@),
    {
        proof {
            reveal(Checker::view);
            reveal(sinks_inferred);
        }
        assert(filed(self.errors@) =~= reports_each(self.errors@));
        assert(rows(self.param_modes@) =~= modes_of(self.param_modes@));
        assert(pin_rows(self.mode_pinned@) =~= pins_of(self.mode_pinned@));
        let ghost written = padded(self.program@, modes_of(self.param_modes@));
        infer_sinks(
            &self.program,
            &self.vocabulary,
            &mut self.param_modes,
            &mut self.mode_pinned,
            &self.fn_owner,
            &mut self.errors,
        );
        assert(filed(self.errors@) =~= reports_each(self.errors@));
        assert(rows(self.param_modes@) =~= modes_of(self.param_modes@));
        assert(pin_rows(self.mode_pinned@) =~= pins_of(self.mode_pinned@));
        proof {
            settled_table_is_unique(
                self.program@,
                self.vocabulary@,
                pins_of(self.mode_pinned@),
                written,
                modes_of(self.param_modes@),
                settled_modes(
                    self.program@,
                    self.vocabulary@,
                    pins_of(self.mode_pinned@),
                    written,
                ),
            );
        }
    }

    fn run_moves(&mut self)
        requires
            old(self)@.fn_owner.len() == old(self)@.program.fns.len(),
        ensures
            final(self)@ == moves_checked(old(self)@),
    {
        proof {
            reveal(Checker::view);
            reveal(moves_checked);
        }
        assert(filed(self.errors@) =~= reports_each(self.errors@));
        assert(rows(self.param_modes@) =~= modes_of(self.param_modes@));
        check_moves(
            &self.program,
            &self.vocabulary,
            &self.param_modes,
            &self.fn_owner,
            &mut self.errors,
        );
        assert(filed(self.errors@) =~= reports_each(self.errors@));
    }

    fn publish_modes(&mut self)
        ensures
            final(self)@ == modes_published(old(self)@),
    {
        proof {
            reveal(Checker::view);
            reveal(modes_published);
        }
        let n: usize = self.program.fns.len();
        let ghost before = fns_of(self.program.fns@);
        let ghost modes = modes_of(self.param_modes@);
        for i in 0..n
            invariant
                n == self.program.fns.len(),
                before.len() == n,
                modes == modes_of(self.param_modes@),
                before == fns_of(old(self).program.fns@),
                forall|j: int|
                    0 <= j < n ==> #[trigger] self.program.fns@[j]@ == if j < i {
                        model::FnDef {
                            modes: mode_row(modes, j, before[j].params),
                            ..before[j]
                        }
                    } else {
                        before[j]
                    },
                *self == (Checker { program: self.program, ..*old(self) }),
                self.program == (crate::hir::Program {
                    fns: self.program.fns,
                    ..old(self).program
                }),
        {
            let params: usize = self.program.fns[i].params;
            assert(self.program.fns@[i as int]@ == before[i as int]);
            let row = mode_row_of(&self.param_modes, i, params);
            let ghost was = self.program.fns@;
            let ghost one = was[i as int];
            self.program.fns[i].modes = row;
            let ghost now = self.program.fns@;
            assert(now[i as int] == (crate::hir::FnDef { modes: row, ..one }));
            assert(now[i as int]@ =~= model::FnDef { modes: row@, ..one@ });
            assert(forall|j: int| 0 <= j < n && j != i ==> now[j] == was[j]);
        }
        assert(fns_of(self.program.fns@) =~= fns_with_modes(before, modes));
    }

    pub fn whole_program(&mut self)
        requires
            old(self)@.in_step(),
        ensures
            final(self)@ == whole_program(old(self)@),
    {
        proof {
            reveal(whole_program);
            reveal(turns_checked);
            reveal(effects_checked);
            reveal(sinks_inferred);
        }
        self.run_turns();
        self.run_effects();
        self.run_sinks();
        self.run_moves();
        self.publish_modes();
    }
}

} // verus!
