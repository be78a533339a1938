//! Filing diagnostics under the module they belong to, each once.

use vstd::prelude::*;
use vstd::string::*;
use crate::span::{reports, Diagnostic, Report};

verus! {

/// The contents of one list of diagnostics per module.
pub open spec fn filed(s: Seq<Vec<Diagnostic>>) -> Seq<Seq<Report>> {
    Seq::new(s.len(), |i: int| reports(s[i]@))
}

/// Whether a list already says this in this place.
pub open spec fn told(list: Seq<Report>, r: Report) -> bool {
    exists|i: int|
        0 <= i < list.len() && (#[trigger] list[i]).span == r.span && list[i].message == r.message
}

/// One diagnostic filed under its owner, unless the owner's list says it already: checking is per
/// instance, so a mistake written once in a template would otherwise report once per instance.
pub open spec fn file_one(all: Seq<Seq<Report>>, owner: int, r: Report) -> Seq<Seq<Report>> {
    if 0 <= owner < all.len() && !told(all[owner], r) {
        all.update(owner, all[owner].push(r))
    } else {
        all
    }
}

/// Several diagnostics of one owner filed in order.
pub open spec fn file_all(
    all: Seq<Seq<Report>>,
    owner: int,
    found: Seq<Report>,
) -> Seq<Seq<Report>>
    decreases found.len(),
{
    if found.len() == 0 {
        all
    } else {
        file_one(file_all(all, owner, found.drop_last()), owner, found.last())
    }
}

/// Several diagnostics, each with its owner, filed in order.
pub open spec fn file_each(
    all: Seq<Seq<Report>>,
    found: Seq<(int, Report)>,
) -> Seq<Seq<Report>>
    decreases found.len(),
{
    if found.len() == 0 {
        all
    } else {
        file_one(file_each(all, found.drop_last()), found.last().0, found.last().1)
    }
}

/// Several diagnostics added to one owner's list as they are, told before or not.
pub open spec fn add_all(
    all: Seq<Seq<Report>>,
    owner: int,
    found: Seq<Report>,
) -> Seq<Seq<Report>> {
    if 0 <= owner < all.len() {
        all.update(owner, all[owner] + found)
    } else {
        all
    }
}

/// Add one diagnostic to its owner's list.
pub fn push(errors: &mut Vec<Vec<Diagnostic>>, owner: usize, d: Diagnostic)
    ensures
        filed(final(errors)@) == add_all(filed(old(errors)@), owner as int, seq![d@]),
{
    let ghost before = filed(errors@);
    if owner < errors.len() {
        let ghost list = errors@[owner as int];
        errors[owner].push(d);
        assert(reports(errors@[owner as int]@) =~= reports(list@) + seq![d@]);
        assert(filed(errors@) =~= before.update(owner as int, reports(list@) + seq![d@]));
    }
}

/// Adding one list after another is adding both at once.
pub proof fn adding_adds_up(
    all: Seq<Seq<Report>>,
    owner: int,
    first: Seq<Report>,
    second: Seq<Report>,
)
    ensures
        add_all(add_all(all, owner, first), owner, second) == add_all(
            all,
            owner,
            first + second,
        ),
{
    if 0 <= owner < all.len() {
        assert(all[owner] + first + second =~= all[owner] + (first + second));
        assert(add_all(add_all(all, owner, first), owner, second) =~= add_all(
            all,
            owner,
            first + second,
        ));
    }
}

/// Adding nothing changes nothing.
pub proof fn adding_nothing(all: Seq<Seq<Report>>, owner: int)
    ensures
        add_all(all, owner, seq![]) == all,
{
    if 0 <= owner < all.len() {
        assert(all[owner] + seq![] =~= all[owner]);
    }
    assert(add_all(all, owner, seq![]) =~= all);
}

fn is_told(list: &Vec<Diagnostic>, d: &Diagnostic) -> (r: bool)
    ensures
        r == told(reports(list@), d@),
{
    for i in 0..list.len()
        invariant
            forall|j: int|
                0 <= j < i ==> (#[trigger] reports(list@)[j]).span != d@.span || reports(
                    list@,
                )[j].message != d@.message,
    {
        if list[i].span == d.span && list[i].message == d.message {
            assert(reports(list@)[i as int].span == d@.span);
            return true;
        }
    }
    false
}

/// File one diagnostic under its owner.
pub fn report(errors: &mut Vec<Vec<Diagnostic>>, owner: usize, d: Diagnostic)
    ensures
        filed(final(errors)@) == file_one(filed(old(errors)@), owner as int, d@),
{
    let ghost before = filed(errors@);
    if owner < errors.len() {
        if !is_told(&errors[owner], &d) {
            let ghost list = errors@[owner as int];
            errors[owner].push(d);
            assert(reports(errors@[owner as int]@) =~= reports(list@).push(d@));
            assert(filed(errors@) =~= before.update(owner as int, reports(list@).push(d@)));
        }
    }
}

/// File several diagnostics of one owner, in order.
pub fn report_all(errors: &mut Vec<Vec<Diagnostic>>, owner: usize, found: Vec<Diagnostic>)
    ensures
        filed(final(errors)@) == file_all(filed(old(errors)@), owner as int, reports(found@)),
{
    let ghost all = reports(found@);
    let ghost before = filed(errors@);
    let mut rest = found;
    let mut taken: Vec<Diagnostic> = Vec::new();
    while rest.len() > 0
        invariant
            taken@.len() + rest@.len() == all.len(),
            forall|i: int| 0 <= i < rest@.len() ==> #[trigger] rest@[i]@ == all[i],
            forall|i: int|
                0 <= i < taken@.len() ==> #[trigger] taken@[i]@ == all[all.len() - 1 - i],
            filed(errors@) == before,
        decreases rest.len(),
    {
        if let Some(d) = rest.pop() {
            taken.push(d);
        }
    }
    let n: usize = taken.len();
    assert(all.take(0) =~= seq![]);
    for i in 0..n
        invariant
            n == all.len(),
            taken@.len() == n - i,
            forall|j: int|
                0 <= j < taken@.len() ==> #[trigger] taken@[j]@ == all[all.len() - 1 - j],
            filed(errors@) == file_all(before, owner as int, all.take(i as int)),
    {
        if let Some(d) = taken.pop() {
            assert(d@ == all[i as int]);
            report(errors, owner, d);
            assert(all.take(i + 1).drop_last() =~= all.take(i as int));
        }
    }
    assert(all.take(n as int) =~= all);
}

/// Filing never takes a diagnostic back, and leaves every other owner's list alone.
pub proof fn filing_only_adds(all: Seq<Seq<Report>>, owner: int, found: Seq<Report>, i: int)
    requires
        0 <= i < all.len(),
    ensures
        file_all(all, owner, found).len() == all.len(),
        all[i].is_prefix_of(file_all(all, owner, found)[i]),
        i != owner ==> file_all(all, owner, found)[i] == all[i],
    decreases found.len(),
{
    if found.len() > 0 {
        filing_only_adds(all, owner, found.drop_last(), i);
    }
}

/// What has been told in one place is not told there again.
pub proof fn filing_tells_once(all: Seq<Seq<Report>>, owner: int, r: Report)
    ensures
        file_one(file_one(all, owner, r), owner, r) == file_one(all, owner, r),
{
    let once = file_one(all, owner, r);
    if 0 <= owner < all.len() && !told(all[owner], r) {
        let list = once[owner];
        assert(list[list.len() - 1] == r);
        assert(told(list, r));
    }
}

} // verus!
