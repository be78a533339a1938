//! Each phase keeps what was there, and so does checking as a whole.

use vstd::prelude::*;
use crate::ast;
use crate::check::{
    bodies_checked, each, graphs, introduced, outcome, phase, reactors_checked, signatures_known,
    File, Phase,
};
use crate::filing::{file_all, file_each, file_one};
use crate::growth::{
    grew, grew_impls, grew_impls_transitive, grew_is_wandered, grew_reflexive, wandered,
    wandered_is_grew_impls, wandered_transitive, widened, with_current_wanders, lives_at_home,
};
use crate::hir::Mode;
use crate::model;
use crate::mono::monomorphize;
use crate::moves::{fn_moves, moves_filed};
use crate::passes::{
    effects_checked, modes_published, modules_of, moves_checked, settled_modes, sinks_inferred,
    turns_checked, whole_program,
};
use crate::sink::{padded, padded_pins, pins, unowned};
use crate::span::Report;
use crate::start::{initial, seeded_enums};
use crate::state::State;
use crate::traits::receiver_home;
use crate::turns::{all_turns, backpressures, turns_added, Modules, TurnFn};
use crate::wiring::Wires;

verus! {

pub broadcast proof fn introduced_grows(s: State, inputs: Seq<File>)
    ensures
        grew(s, (#[trigger] introduced(s, inputs))),
{
    reveal(introduced);
    reveal(grew);
    reveal(widened);
}

pub broadcast proof fn phase_grows(s: State, p: Phase, module: ast::Module)
    ensures
        grew_impls(s, (#[trigger] phase(s, p, module))),
{
    broadcast use {
        grew_is_wandered,
        wandered_is_grew_impls,
        crate::growth::imports::collect_decls_grows,
        crate::growth::imports::check_specifiers_grows,
        crate::growth::imports::bind_imports_grows,
        crate::growth::item::declare_types_grows,
        crate::growth::item::define_types_grows,
        crate::growth::item::declare_fns_grows,
        crate::growth::item::check_fns_grows,
        crate::growth::traits::define_traits_grows,
        crate::growth::traits::declare_impls_grows,
        crate::growth::members::declare_reactors_grows,
    };

    reveal(phase);
}

pub broadcast proof fn each_grows(s: State, p: Phase, inputs: Seq<File>)
    ensures
        grew_impls(s, (#[trigger] each(s, p, inputs))),
    decreases inputs.len(),
{
    broadcast use {
        grew_reflexive,
        grew_is_wandered,
        with_current_wanders,
        wandered_is_grew_impls,
        grew_impls_transitive,
        phase_grows,
    };

    if inputs.len() == 0 {
        assert(grew(s, s));
    } else {
        each_grows(s, p, inputs.drop_last());
    }
}

pub broadcast proof fn graphs_grows(s: State, inputs: Seq<File>)
    ensures
        wandered(s, (#[trigger] graphs(s, inputs)).0),
    decreases inputs.len(),
{
    broadcast use {
        grew_reflexive,
        grew_is_wandered,
        with_current_wanders,
        wandered_transitive,
        crate::growth::wiring::scan_reactors_grows,
    };

    if inputs.len() == 0 {
        assert(grew(s, s));
    } else {
        graphs_grows(s, inputs.drop_last());
    }
}

pub broadcast proof fn reactors_checked_grows(s: State, inputs: Seq<File>, ws: Seq<Seq<Wires>>)
    ensures
        wandered(s, (#[trigger] reactors_checked(s, inputs, ws))),
    decreases inputs.len(),
{
    broadcast use {
        grew_reflexive,
        grew_is_wandered,
        with_current_wanders,
        wandered_transitive,
        crate::growth::reactor::check_reactors_grows,
    };

    if inputs.len() == 0 || ws.len() == 0 {
        assert(grew(s, s));
    } else {
        reactors_checked_grows(s, inputs.drop_last(), ws.drop_last());
    }
}

pub broadcast proof fn signatures_known_grows(s: State, inputs: Seq<File>)
    ensures
        grew_impls(s, (#[trigger] signatures_known(s, inputs))),
{
    broadcast use {
        grew_is_wandered,
        wandered_is_grew_impls,
        grew_impls_transitive,
        introduced_grows,
        each_grows,
        crate::growth::state::with_defining_types_grows,
        crate::growth::mono::drain_type_fills_grows,
        crate::growth::imports::bind_fn_imports_grows,
    };

    reveal(signatures_known);
}

pub broadcast proof fn bodies_checked_grows(s: State, inputs: Seq<File>)
    ensures
        grew_impls(s, (#[trigger] bodies_checked(s, inputs))),
{
    broadcast use {
        wandered_is_grew_impls,
        grew_impls_transitive,
        graphs_grows,
        reactors_checked_grows,
        each_grows,
    };

    reveal(bodies_checked);
}

// ---------------------------------------------------------------- the whole program

/// One list per file, and each only longer than it was.
pub open spec fn told_more(a: Seq<Seq<Report>>, b: Seq<Seq<Report>>) -> bool {
    &&& a.len() == b.len()
    &&& forall|i: int| 0 <= i < a.len() ==> a[i].is_prefix_of(#[trigger] b[i])
}

proof fn told_more_transitive(a: Seq<Seq<Report>>, b: Seq<Seq<Report>>, c: Seq<Seq<Report>>)
    requires
        told_more(a, b),
        told_more(b, c),
    ensures
        told_more(a, c),
{
    assert forall|i: int| 0 <= i < a.len() implies a[i].is_prefix_of(#[trigger] c[i]) by {
        assert(a[i].is_prefix_of(b[i]));
        assert(b[i].is_prefix_of(c[i]));
        assert(a[i] =~= c[i].take(a[i].len() as int));
    }
}

proof fn filing_one_tells_more(all: Seq<Seq<Report>>, owner: int, r: Report)
    ensures
        told_more(all, file_one(all, owner, r)),
{
}

proof fn filing_each_tells_more(all: Seq<Seq<Report>>, found: Seq<(int, Report)>)
    ensures
        told_more(all, file_each(all, found)),
    decreases found.len(),
{
    if found.len() > 0 {
        filing_each_tells_more(all, found.drop_last());
        let before = file_each(all, found.drop_last());
        filing_one_tells_more(before, found.last().0, found.last().1);
        told_more_transitive(all, before, file_each(all, found));
    }
}

proof fn filing_all_tells_more(all: Seq<Seq<Report>>, owner: int, found: Seq<Report>)
    ensures
        told_more(all, file_all(all, owner, found)),
    decreases found.len(),
{
    if found.len() > 0 {
        filing_all_tells_more(all, owner, found.drop_last());
        let before = file_all(all, owner, found.drop_last());
        filing_one_tells_more(before, owner, found.last());
        told_more_transitive(all, before, file_all(all, owner, found));
    }
}

proof fn turns_tell_more(
    p: model::Program,
    v: model::Vocabulary,
    m: Modules,
    turns: Seq<TurnFn>,
    errors: Seq<Seq<Report>>,
    n: nat,
)
    ensures
        told_more(errors, turns_added(p, v, m, turns, errors, n)),
    decreases n,
{
    if n > 0 {
        turns_tell_more(p, v, m, turns, errors, (n - 1) as nat);
        told_more_transitive(
            errors,
            turns_added(p, v, m, turns, errors, (n - 1) as nat),
            turns_added(p, v, m, turns, errors, n),
        );
    }
}

proof fn moves_tell_more(
    p: model::Program,
    v: model::Vocabulary,
    modes: Seq<Seq<Mode>>,
    owners: Seq<usize>,
    errors: Seq<Seq<Report>>,
    n: nat,
)
    ensures
        told_more(errors, moves_filed(p, v, modes, owners, errors, n)),
    decreases n,
{
    if n > 0 {
        moves_tell_more(p, v, modes, owners, errors, (n - 1) as nat);
        filing_all_tells_more(
            moves_filed(p, v, modes, owners, errors, (n - 1) as nat),
            owners[n - 1] as int,
            fn_moves(p, v, modes, p.fns[n - 1]),
        );
        told_more_transitive(
            errors,
            moves_filed(p, v, modes, owners, errors, (n - 1) as nat),
            moves_filed(p, v, modes, owners, errors, n),
        );
    }
}

/// The passes over the whole program take no report back and register no impl.
pub proof fn whole_program_tells_more(s: State)
    ensures
        told_more(s.errors, whole_program(s).errors),
        whole_program(s).impls == s.impls,
        whole_program(s).traits == s.traits,
        whole_program(s).struct_owner == s.struct_owner,
        whole_program(s).enum_owner == s.enum_owner,
{
    reveal(whole_program);
    reveal(turns_checked);
    reveal(effects_checked);
    reveal(sinks_inferred);
    reveal(moves_checked);
    reveal(modes_published);
    let turns = all_turns(s.program, s.reactor_owner, s.program.reactors.len());
    turns_tell_more(s.program, s.vocabulary, modules_of(s), turns, s.errors, turns.len());
    let a = turns_checked(s);
    let waits = backpressures(a.program, modules_of(a), a.program.fns.len());
    filing_each_tells_more(a.errors, waits);
    let b = effects_checked(a);
    let pinned = padded_pins(b.program, b.mode_pinned);
    let modes = settled_modes(b.program, b.vocabulary, pinned, padded(b.program, b.param_modes));
    let n = b.program.fns.len();
    let clashes = pins(b.program, b.vocabulary, pinned, modes, b.fn_owner, n);
    let lost = unowned(b.program, b.vocabulary, modes, b.fn_owner, n);
    filing_each_tells_more(b.errors, clashes);
    filing_each_tells_more(file_each(b.errors, clashes), lost);
    let c = sinks_inferred(b);
    moves_tell_more(c.program, c.vocabulary, c.param_modes, c.fn_owner, c.errors, n);
    let d = moves_checked(c);
    told_more_transitive(s.errors, a.errors, b.errors);
    told_more_transitive(s.errors, b.errors, file_each(b.errors, clashes));
    told_more_transitive(s.errors, file_each(b.errors, clashes), c.errors);
    told_more_transitive(s.errors, c.errors, d.errors);
}

/// What is known when every body has been typed and every copy made.
pub open spec fn settled(v: model::Vocabulary, inputs: Seq<File>) -> State {
    monomorphize(bodies_checked(signatures_known(initial(v, inputs.len()), inputs), inputs))
}

proof fn settling_grows(v: model::Vocabulary, inputs: Seq<File>)
    ensures
        grew_impls(initial(v, inputs.len()), settled(v, inputs)),
{
    broadcast use {
        grew_is_wandered,
        wandered_is_grew_impls,
        grew_impls_transitive,
        signatures_known_grows,
        bodies_checked_grows,
        crate::growth::mono::monomorphize_grows,
    };

    let s = initial(v, inputs.len());
    assert(grew_impls(s, signatures_known(s, inputs)));
    assert(grew_impls(signatures_known(s, inputs), bodies_checked(
        signatures_known(s, inputs),
        inputs,
    )));
}

// ---------------------------------------------------------------- laws

/// When every body has been typed, the tables of the program are still in step: every function has
/// an owner, a signature and a row of modes, and every type and reactor an owner.
pub proof fn tables_stay_in_step(v: model::Vocabulary, inputs: Seq<File>)
    ensures
        settled(v, inputs).in_step(),
{
    settling_grows(v, inputs);
    reveal(grew_impls);
    reveal(widened);
    reveal(initial);
    reveal(seeded_enums);
}

/// There is one list of reports for every file, in the order of the files.
pub proof fn every_file_has_its_reports(v: model::Vocabulary, inputs: Seq<File>)
    ensures
        outcome(v, inputs).errors.len() == inputs.len(),
{
    settling_grows(v, inputs);
    whole_program_tells_more(settled(v, inputs));
    reveal(grew_impls);
    reveal(widened);
    reveal(initial);
    reveal(outcome);
}

/// What was reported of a file while names and signatures were worked out is still reported when
/// everything has been looked at: no later phase takes a report back.
pub proof fn reports_are_never_taken_back(v: model::Vocabulary, inputs: Seq<File>)
    ensures
        told_more(
            signatures_known(initial(v, inputs.len()), inputs).errors,
            outcome(v, inputs).errors,
        ),
{
    broadcast use {
        grew_is_wandered,
        wandered_is_grew_impls,
        grew_impls_transitive,
        bodies_checked_grows,
        crate::growth::mono::monomorphize_grows,
    };

    let s = signatures_known(initial(v, inputs.len()), inputs);
    assert(grew_impls(s, bodies_checked(s, inputs)));
    assert(grew_impls(s, settled(v, inputs)));
    whole_program_tells_more(settled(v, inputs));
    reveal(outcome);
    assert(told_more(s.errors, settled(v, inputs).errors)) by {
        reveal(grew_impls);
        reveal(widened);
    }
    told_more_transitive(s.errors, settled(v, inputs).errors, outcome(v, inputs).errors);
}

/// No trait is implemented twice for one type, in all files together.
pub proof fn no_trait_is_implemented_twice(v: model::Vocabulary, inputs: Seq<File>)
    ensures
        outcome(v, inputs).coherent(),
{
    settling_grows(v, inputs);
    whole_program_tells_more(settled(v, inputs));
    reveal(grew_impls);
    reveal(initial);
    reveal(outcome);
}

/// Nothing ever implements `Eq`: which types have it is not for a program to say.
pub proof fn eq_is_never_implemented(v: model::Vocabulary, inputs: Seq<File>)
    ensures
        outcome(v, inputs).eq_is_free(),
{
    settling_grows(v, inputs);
    whole_program_tells_more(settled(v, inputs));
    reveal(grew_impls);
    reveal(initial);
    reveal(outcome);
}

/// Every impl lives in the file of its trait or in the file of its type: no third file changes
/// what a pairing means.
pub proof fn impls_live_at_home(v: model::Vocabulary, inputs: Seq<File>)
    ensures
        outcome(v, inputs).at_home(),
{
    settling_grows(v, inputs);
    let s = settled(v, inputs);
    let o = outcome(v, inputs);
    whole_program_tells_more(s);
    reveal(grew_impls);
    reveal(initial);
    reveal(outcome);
    assert forall|i: int| 0 <= i < o.impls.len() implies lives_at_home(
        o,
        #[trigger] o.impls[i],
    ) by {
        assert(lives_at_home(s, s.impls[i]));
        reveal(State::trait_module);
        reveal(receiver_home);
        reveal(State::struct_module);
        reveal(State::enum_module);
    }
}

} // verus!
