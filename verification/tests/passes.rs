//! The parts that need no program: graphs, types, names and tables.

use norn_hir::cycle::{find_cycle_from, find_first_cycle};
use norn_hir::filing::{push, report};
use norn_hir::graph::find_nearest;
use norn_hir::hir::{Resource, Ty};
use norn_hir::order::{plan, topological};
use norn_hir::span::{Diagnostic, Span};
use norn_hir::state::{Ctx, DeclKind, Sort};
use norn_hir::table::Table;
use norn_hir::text::{join, number, same};

#[test]
fn a_node_stands_after_what_it_depends_on() {
    assert_eq!(topological(&vec![vec![2], vec![0], vec![]]), vec![2, 0, 1]);
    assert_eq!(topological(&vec![vec![], vec![], vec![]]), vec![0, 1, 2]);
    assert_eq!(topological(&Vec::new()), Vec::<usize>::new());
}

#[test]
fn an_order_is_total_even_where_there_is_a_cycle() {
    let mut order = topological(&vec![vec![1], vec![0], vec![1]]);
    order.sort();
    assert_eq!(order, vec![0, 1, 2]);
}

#[test]
fn a_plan_is_what_a_write_can_touch() {
    // 1 depends on 0, 2 on 1, 3 on nothing.
    let deps = vec![vec![], vec![0], vec![1], vec![]];
    let order = topological(&deps);
    assert_eq!(plan(&deps, &order, &vec![0]), vec![0, 1, 2]);
    assert_eq!(plan(&deps, &order, &vec![1]), vec![1, 2]);
    assert_eq!(plan(&deps, &order, &vec![3]), vec![3]);
    assert_eq!(plan(&deps, &order, &Vec::new()), Vec::<usize>::new());
}

#[test]
fn a_cycle_is_found_where_there_is_one() {
    let all = vec![true, true, true];
    assert_eq!(
        find_first_cycle(&vec![vec![1], vec![2], vec![1]], &all),
        Some(vec![1, 2, 1])
    );
    assert_eq!(find_first_cycle(&vec![vec![1], vec![2], vec![]], &all), None);
    assert_eq!(find_first_cycle(&vec![vec![0]], &vec![true]), Some(vec![0, 0]));
    // A node that is not let through closes nothing.
    assert_eq!(
        find_first_cycle(&vec![vec![1], vec![2], vec![1]], &vec![true, false, true]),
        None
    );
    assert_eq!(find_cycle_from(&vec![vec![1], vec![0], vec![2]], 0), Some(vec![0, 1, 0]));
    assert_eq!(find_cycle_from(&vec![vec![], vec![1]], 0), None);
}

#[test]
fn the_nearest_hit_is_found_first() {
    let g = vec![vec![1, 2], vec![3], vec![4], vec![], vec![]];
    assert_eq!(find_nearest(&g, &vec![false, false, false, true, true], 0), Some(3));
    assert_eq!(find_nearest(&g, &vec![true, false, false, true, false], 0), Some(0));
    assert_eq!(find_nearest(&g, &vec![false; 5], 0), None);
}

#[test]
fn a_type_fits_itself_and_what_went_wrong() {
    assert!(Ty::I64.fits(&Ty::I64));
    assert!(!Ty::I64.fits(&Ty::Bool));
    assert!(Ty::Error.fits(&Ty::Bool));
    assert!(Ty::I64.fits(&Ty::Error));
    assert!(Ty::Never.fits(&Ty::Str));
    assert!(!Ty::Str.fits(&Ty::Never));
    let a = Ty::Option(Box::new(Ty::Never));
    let b = Ty::Option(Box::new(Ty::I64));
    assert!(a.fits(&b));
    assert!(!b.fits(&a));
    assert!(!Ty::Resource(Resource::File).fits(&Ty::Resource(Resource::Flow)));
}

#[test]
fn one_mistake_is_told_once() {
    let mut errors: Vec<Vec<Diagnostic>> = vec![Vec::new(), Vec::new()];
    let made = || Diagnostic::fixed(Span::new(3, 5), "gone");
    report(&mut errors, 1, made());
    report(&mut errors, 1, made());
    assert_eq!(errors[1].len(), 1);
    report(&mut errors, 1, Diagnostic::fixed(Span::new(4, 5), "gone"));
    assert_eq!(errors[1].len(), 2);
    push(&mut errors, 1, made());
    assert_eq!(errors[1].len(), 3);
    assert!(errors[0].is_empty());
    report(&mut errors, 9, made());
    assert_eq!(errors.len(), 2);
}

#[test]
fn a_diagnostic_keeps_what_it_was_given() {
    let d = Diagnostic::fixed(Span::new(1, 2), "message")
        .label("label")
        .secondary(Span::new(3, 4), "second")
        .note("first note")
        .note("second note");
    assert_eq!(d.message, "message");
    assert_eq!(d.label.as_deref(), Some("label"));
    assert_eq!(d.secondary.len(), 1);
    assert_eq!(d.secondary[0].0, Span::new(3, 4));
    assert_eq!(d.notes, vec!["first note", "second note"]);
    assert_eq!(Span::new(1, 2).to(Span::new(5, 9)), Span::new(1, 9));
}

#[test]
fn a_table_gives_back_the_latest_entry() {
    let mut t: Table<u32> = Table::new();
    t.insert("a", 1);
    t.insert("b", 2);
    t.insert("a", 3);
    t.insert_first("b", 4);
    t.insert_first("c", 5);
    assert_eq!(t.get("a"), Some(3));
    assert_eq!(t.get("b"), Some(2));
    assert_eq!(t.get("c"), Some(5));
    assert_eq!(t.get("d"), None);
    assert!(t.contains("a") && !t.contains("d"));
    assert_eq!(t.copy().get("a"), Some(3));
}

#[test]
fn numbers_and_lists_in_words() {
    assert_eq!(number(0), "0");
    assert_eq!(number(907), "907");
    let list = vec!["a".to_string(), "b".to_string(), "c".to_string()];
    assert_eq!(join(&list, ", "), "a, b, c");
    assert_eq!(join(&Vec::new(), ", "), "");
    assert!(same("norn", "norn"));
    assert!(!same("norn", "nor"));
}

#[test]
fn what_each_place_may_do() {
    assert!(Ctx::Task.suspends() && Ctx::Task.builds_tasks() && !Ctx::Task.in_turn());
    assert!(Ctx::Effect.builds_tasks() && Ctx::Effect.in_turn() && !Ctx::Effect.suspends());
    assert!(Ctx::Turn.in_turn() && !Ctx::Turn.builds_tasks());
    assert!(!Ctx::Plain.in_turn() && !Ctx::Plain.builds_tasks() && !Ctx::Plain.suspends());
    assert_eq!(Sort::Signal.describe(), "signal");
    assert_eq!(DeclKind::Fn.describe(), "function");
}
