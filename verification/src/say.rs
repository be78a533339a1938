//! The diagnostics, each built from what it is about.

use vstd::prelude::*;
use vstd::string::*;
use crate::reports;
use crate::span::{Diagnostic, Span};

verus! {

pub fn bare_specifier(span: Span, specifier: &str) -> (d: Diagnostic)
    ensures
        d@ == reports::bare_specifier(span, specifier@),
{
    proof {
        reveal(reports::bare_specifier);
    }
    Diagnostic::new(span, "`".to_owned().concat(specifier).concat("` does not name a module"))
        .label("not `std/…` or a relative path")
        .note("a module is the standard library's (`std/fmt`) or a file named by where it is (`./fmt`, `../util/strings`); packages will take this shape, but do not exist yet")
}

pub fn extension_written(span: Span, trimmed: &str) -> (d: Diagnostic)
    ensures
        d@ == reports::extension_written(span, trimmed@),
{
    proof {
        reveal(reports::extension_written);
    }
    Diagnostic::fixed(span, "the `.norn` extension is implied")
        .label("spelled out here")
        .note("write `\"".to_owned().concat(trimmed).concat("\"`; the file it names is still `").concat(trimmed).concat(".norn`").as_str())
}

pub fn imports_itself(span: Span) -> (d: Diagnostic)
    ensures
        d@ == reports::imports_itself(span),
{
    proof {
        reveal(reports::imports_itself);
    }
    Diagnostic::fixed(span, "a file cannot import itself")
        .label("this is the importing file")
}

pub fn no_std_module(span: Span, specifier: &str, catalogue: &str) -> (d: Diagnostic)
    ensures
        d@ == reports::no_std_module(span, specifier@, catalogue@),
{
    proof {
        reveal(reports::no_std_module);
    }
    Diagnostic::new(span, "no module `".to_owned().concat(specifier).concat("` in the standard library"))
        .note("the standard library provides ".to_owned().concat(catalogue).as_str())
}

pub fn no_module(span: Span, specifier: &str, key: &str) -> (d: Diagnostic)
    ensures
        d@ == reports::no_module(span, specifier@, key@),
{
    proof {
        reveal(reports::no_module);
    }
    Diagnostic::new(span, "cannot find module `".to_owned().concat(specifier).concat("`"))
        .note("expected a module at `".to_owned().concat(key).concat("`").as_str())
}

pub fn namespace_taken(span: Span, name: &str, what: &str) -> (d: Diagnostic)
    ensures
        d@ == reports::namespace_taken(span, name@, what@),
{
    proof {
        reveal(reports::namespace_taken);
    }
    Diagnostic::new(span, "the imported name `".to_owned().concat(name).concat("` is already taken"))
        .label(what.to_owned().as_str())
        .note("pick another name after `as`")
}

pub fn import_undefined(span: Span, name: &str, specifier: &str, file: &str) -> (d: Diagnostic)
    ensures
        d@ == reports::import_undefined(span, name@, specifier@, file@),
{
    proof {
        reveal(reports::import_undefined);
    }
    Diagnostic::new(span, "`".to_owned().concat(name).concat("` is not defined in `").concat(specifier).concat("`"))
        .label("unknown name")
        .note(file.to_owned().concat(" declares no `").concat(name).concat("`").as_str())
}

pub fn import_taken(span: Span, name: &str, what: &str, source: &str) -> (d: Diagnostic)
    ensures
        d@ == reports::import_taken(span, name@, what@, source@),
{
    proof {
        reveal(reports::import_taken);
    }
    Diagnostic::new(span, "the imported name `".to_owned().concat(name).concat("` is already taken"))
        .label(what.to_owned().as_str())
        .note("rename the import with `as`, as in `".to_owned().concat(source).concat(" as other`").as_str())
}

pub fn trait_not_value_or_type(span: Span, text: &str) -> (d: Diagnostic)
    ensures
        d@ == reports::trait_not_value_or_type(span, text@),
{
    proof {
        reveal(reports::trait_not_value_or_type);
    }
    Diagnostic::new(span, "`".to_owned().concat(text).concat("` is a trait"))
        .label("not a value or a type")
        .note("a trait names behaviour: implement it with `impl`, and reach its methods on a value")
}

pub fn not_exported(span: Span, name: &str, shown: &str, kind: &str, file: &str) -> (d: Diagnostic)
    ensures
        d@ == reports::not_exported(span, name@, shown@, kind@, file@),
{
    proof {
        reveal(reports::not_exported);
    }
    Diagnostic::new(span, "`".to_owned().concat(name).concat("` is not exported by `").concat(shown).concat("`"))
        .label("private to its file")
        .note("the ".to_owned().concat(kind).concat(" is declared in ").concat(file).concat("; write `export` before it to make it public").as_str())
}

pub fn declared_twice(span: Span, name: &str, what: &str) -> (d: Diagnostic)
    ensures
        d@ == reports::declared_twice(span, name@, what@),
{
    proof {
        reveal(reports::declared_twice);
    }
    Diagnostic::new(span, "`".to_owned().concat(name).concat("` is declared twice"))
        .label(what.to_owned().as_str())
}

pub fn self_type_param(span: Span) -> (d: Diagnostic)
    ensures
        d@ == reports::self_type_param(span),
{
    proof {
        reveal(reports::self_type_param);
    }
    Diagnostic::fixed(span, "`Self` cannot be a type parameter")
        .label("a reserved name")
        .note("`Self` always names the implementing type of a `trait` or `impl`")
}

pub fn type_param_twice(span: Span, name: &str) -> (d: Diagnostic)
    ensures
        d@ == reports::type_param_twice(span, name@),
{
    proof {
        reveal(reports::type_param_twice);
    }
    Diagnostic::new(span, "type parameter `".to_owned().concat(name).concat("` is declared twice"))
        .label("duplicate parameter")
}

pub fn bound_refused(span: Span, name: &str) -> (d: Diagnostic)
    ensures
        d@ == reports::bound_refused(span, name@),
{
    proof {
        reveal(reports::bound_refused);
    }
    Diagnostic::new(span, "`".to_owned().concat(name).concat("` cannot declare a bound here"))
        .label("bounds live on functions")
        .note("a type holds values of any shape; the function that operates on them is where `T: Eq` belongs")
}

pub fn field_twice(span: Span, name: &str) -> (d: Diagnostic)
    ensures
        d@ == reports::field_twice(span, name@),
{
    proof {
        reveal(reports::field_twice);
    }
    Diagnostic::new(span, "field `".to_owned().concat(name).concat("` is declared twice"))
}

pub fn builtin_fn_redefined(span: Span, name: &str) -> (d: Diagnostic)
    ensures
        d@ == reports::builtin_fn_redefined(span, name@),
{
    proof {
        reveal(reports::builtin_fn_redefined);
    }
    Diagnostic::new(span, "`".to_owned().concat(name).concat("` is a built-in function"))
        .label("cannot be redefined")
}

pub fn builtin_ctor_redefined(span: Span, name: &str) -> (d: Diagnostic)
    ensures
        d@ == reports::builtin_ctor_redefined(span, name@),
{
    proof {
        reveal(reports::builtin_ctor_redefined);
    }
    Diagnostic::new(span, "`".to_owned().concat(name).concat("` is a built-in constructor"))
        .label("cannot be redefined")
        .note("`None`, `Some`, `Ok`, and `Err` always name the Option and Result constructors")
}

pub fn fn_clashes(span: Span, name: &str, what: &str) -> (d: Diagnostic)
    ensures
        d@ == reports::fn_clashes(span, name@, what@),
{
    proof {
        reveal(reports::fn_clashes);
    }
    Diagnostic::new(span, "`".to_owned().concat(name).concat("` is already the name of a ").concat(what))
        .label("a call must be unambiguous")
        .note("`".to_owned().concat(name).concat("(…)` has to mean one thing, and the ").concat(what).concat(" `").concat(name).concat("` already claims it").as_str())
}

pub fn generic_main(span: Span) -> (d: Diagnostic)
    ensures
        d@ == reports::generic_main(span),
{
    proof {
        reveal(reports::generic_main);
    }
    Diagnostic::fixed(span, "`main` cannot be generic")
        .label("the entry point")
        .note("the runtime calls `main` directly and has no type arguments to supply")
}

pub fn unknown_capability(span: Span, name: &str, known: &str) -> (d: Diagnostic)
    ensures
        d@ == reports::unknown_capability(span, name@, known@),
{
    proof {
        reveal(reports::unknown_capability);
    }
    Diagnostic::new(span, "unknown capability `".to_owned().concat(name).concat("`"))
        .label("not a capability v0 knows")
        .note("the vocabulary is fixed: ".to_owned().concat(known).as_str())
}

pub fn uses_on_plain_fn(span: Span) -> (d: Diagnostic)
    ensures
        d@ == reports::uses_on_plain_fn(span),
{
    proof {
        reveal(reports::uses_on_plain_fn);
    }
    Diagnostic::fixed(span, "capabilities are only meaningful on a `task fn`")
}

pub fn exclusive_borrow(span: Span) -> (d: Diagnostic)
    ensures
        d@ == reports::exclusive_borrow(span),
{
    proof {
        reveal(reports::exclusive_borrow);
    }
    Diagnostic::fixed(span, "`&mut` has no meaning yet")
        .label("exclusive borrows arrive with mutation through references")
        .note("v0 borrows only to read: `&T` lets a call look at a value without taking it")
        .note("to change something, take it by value and return it, or hold it in a reactor's `state`")
}

pub fn reference_here(span: Span) -> (d: Diagnostic)
    ensures
        d@ == reports::reference_here(span),
{
    proof {
        reveal(reports::reference_here);
    }
    Diagnostic::fixed(span, "a reference cannot be written here")
        .label("`&` is only a parameter type")
        .note("a borrow lasts for the call it is passed to, so there is nowhere else it could be kept")
        .note("to hold the value, name it by its own type and take ownership of it")
}

pub fn no_type_args(span: Span, name: &str) -> (d: Diagnostic)
    ensures
        d@ == reports::no_type_args(span, name@),
{
    proof {
        reveal(reports::no_type_args);
    }
    Diagnostic::new(span, "`".to_owned().concat(name).concat("` takes no type arguments"))
        .note("user-defined generics arrive after M6; see BOOTSTRAP.md §8")
}

pub fn fn_not_type(span: Span, text: &str) -> (d: Diagnostic)
    ensures
        d@ == reports::fn_not_type(span, text@),
{
    proof {
        reveal(reports::fn_not_type);
    }
    Diagnostic::new(span, "`".to_owned().concat(text).concat("` is a function, not a type"))
}

pub fn unknown_type(span: Span, name: &str) -> (d: Diagnostic)
    ensures
        d@ == reports::unknown_type(span, name@),
{
    proof {
        reveal(reports::unknown_type);
    }
    Diagnostic::new(span, "unknown type `".to_owned().concat(name).concat("`"))
}

pub fn only_byte_flows(span: Span) -> (d: Diagnostic)
    ensures
        d@ == reports::only_byte_flows(span),
{
    proof {
        reveal(reports::only_byte_flows);
    }
    Diagnostic::fixed(span, "the only flow in v0 is `Flow<Bytes>`")
        .note("flows of other element types arrive with typed layout; see BOOTSTRAP.md §8")
}

pub fn unwritable_type(span: Span, name: &str, lives: &str) -> (d: Diagnostic)
    ensures
        d@ == reports::unwritable_type(span, name@, lives@),
{
    proof {
        reveal(reports::unwritable_type);
    }
    Diagnostic::new(span, "`".to_owned().concat(name).concat("` is not a type that can be written"))
        .label(lives.to_owned().concat(" lives inside a reactor").as_str())
        .note("declare it as a member — `signal open = …` — and annotate the element type, as in `signal open: I64 = …`")
        .note("outside its reactor it is reached through an `export`, and read with `latest`")
}

pub fn type_arg_count(
    span: Span,
    name: &str,
    want: &str,
    plural: &str,
    found: &str,
    teach: &str,
) -> (d: Diagnostic)
    ensures
        d@ == reports::type_arg_count(span, name@, want@, plural@, found@, teach@),
{
    proof {
        reveal(reports::type_arg_count);
    }
    Diagnostic::new(span, "`".to_owned().concat(name).concat("` takes ").concat(want).concat(" type ").concat(plural).concat(", found ").concat(found))
        .note(teach.to_owned().as_str())
}

pub fn template_arity(
    span: Span,
    name: &str,
    want: &str,
    plural: &str,
    found: &str,
) -> (d: Diagnostic)
    ensures
        d@ == reports::template_arity(span, name@, want@, plural@, found@),
{
    proof {
        reveal(reports::template_arity);
    }
    Diagnostic::new(span, "`".to_owned().concat(name).concat("` takes ").concat(want).concat(" type ").concat(plural).concat(", found ").concat(found))
        .note("write one type for each parameter it declares")
}

pub fn no_self_here(span: Span) -> (d: Diagnostic)
    ensures
        d@ == reports::no_self_here(span),
{
    proof {
        reveal(reports::no_self_here);
    }
    Diagnostic::fixed(span, "`Self` has no meaning here")
        .note("`Self` always names the implementing type of a `trait` or `impl`")
}

pub fn borrow_named(span: Span, name: &str) -> (d: Diagnostic)
    ensures
        d@ == reports::borrow_named(span, name@),
{
    proof {
        reveal(reports::borrow_named);
    }
    Diagnostic::new(span, "`".to_owned().concat(name).concat("` would be a borrow"))
        .label("a borrow cannot be given a name")
        .note("`&` lasts for the call it is handed to, and a name outlives that")
        .note("pass it where it is needed — `f(&conn)` — or bind the value itself and take ownership of it")
}

pub fn ctor_bound(span: Span, name: &str) -> (d: Diagnostic)
    ensures
        d@ == reports::ctor_bound(span, name@),
{
    proof {
        reveal(reports::ctor_bound);
    }
    Diagnostic::new(span, "`".to_owned().concat(name).concat("` cannot be a binding"))
        .label("a built-in constructor")
        .note("`None`, `Some`, `Ok`, and `Err` always name the Option and Result constructors")
}

pub fn mismatch(span: Span, expected: &str, found: &str) -> (d: Diagnostic)
    ensures
        d@ == reports::mismatch(span, expected@, found@),
{
    proof {
        reveal(reports::mismatch);
    }
    Diagnostic::new(span, "expected ".to_owned().concat(expected).concat(", found ").concat(found))
}

pub fn lambda(span: Span) -> (d: Diagnostic)
    ensures
        d@ == reports::lambda(span),
{
    proof {
        reveal(reports::lambda);
    }
    Diagnostic::fixed(span, "functions are not values yet")
        .label("lambda")
        .note("nothing in v0 needs one: the reactor surface is `input`, `state`, `signal`, and `on`, and closures arrive with the dynamic subgraphs of M7")
}

pub fn borrowed_task_arg(span: Span, what: &str, when: &str, name: &str) -> (d: Diagnostic)
    ensures
        d@ == reports::borrowed_task_arg(span, what@, when@, name@),
{
    proof {
        reveal(reports::borrowed_task_arg);
    }
    Diagnostic::new(span, "`".to_owned().concat(what).concat("` cannot be handed a borrow"))
        .label("this is borrowed, and the task ".to_owned().concat(when).as_str())
        .note("the work is built here and started later, so it has to own its ".to_owned().concat(name).as_str())
        .note("drop the `&` to move the value in; `await f(&x)` is the form that may borrow, because the task is finished by the time that line is")
}

pub fn borrows_not_takes(span: Span, name: &str) -> (d: Diagnostic)
    ensures
        d@ == reports::borrows_not_takes(span, name@),
{
    proof {
        reveal(reports::borrows_not_takes);
    }
    Diagnostic::new(span, "this borrows the ".to_owned().concat(name).concat(" rather than taking it"))
        .label("write `&` here")
        .note("the call only looks at it, so the value stays yours afterwards")
}

pub fn takes_not_borrows(span: Span, name: &str) -> (d: Diagnostic)
    ensures
        d@ == reports::takes_not_borrows(span, name@),
{
    proof {
        reveal(reports::takes_not_borrows);
    }
    Diagnostic::new(span, "this takes the ".to_owned().concat(name))
        .label("drop the `&`")
        .note("ownership moves into the call, and the value cannot be used here again")
}

pub fn only_task_fns(span: Span, fn_name: &str, what: &str) -> (d: Diagnostic)
    ensures
        d@ == reports::only_task_fns(span, fn_name@, what@),
{
    proof {
        reveal(reports::only_task_fns);
    }
    Diagnostic::new(span, "only a `task fn` can create a task, and `".to_owned().concat(fn_name).concat("` is not one"))
        .label("`".to_owned().concat(what).concat("` builds a task").as_str())
        .note("mark the enclosing function `task fn`")
}

pub fn undeclared_capability(
    span: Span,
    fn_name: &str,
    capability: &str,
    what: &str,
    all: &str,
) -> (d: Diagnostic)
    ensures
        d@ == reports::undeclared_capability(span, fn_name@, capability@, what@, all@),
{
    proof {
        reveal(reports::undeclared_capability);
    }
    Diagnostic::new(span, "`".to_owned().concat(fn_name).concat("` does not declare the capability `").concat(capability).concat("`"))
        .label("`".to_owned().concat(what).concat("` uses it").as_str())
        .note("a task's `uses { … }` set must cover every task it creates")
        .note("add it: `uses { ".to_owned().concat(all).concat(" }`").as_str())
}

pub fn discarded_task(span: Span) -> (d: Diagnostic)
    ensures
        d@ == reports::discarded_task(span),
{
    proof {
        reveal(reports::discarded_task);
    }
    Diagnostic::fixed(span, "this builds a task and then discards it")
        .label("the task never runs")
        .note("`await` it to run it here, or `spawn` it to run it alongside")
}

pub fn await_outside(span: Span) -> (d: Diagnostic)
    ensures
        d@ == reports::await_outside(span),
{
    proof {
        reveal(reports::await_outside);
    }
    Diagnostic::fixed(span, "`await` is only available inside a `task fn`")
        .label("only a task may suspend")
        .note("mark the enclosing function `task fn`")
}

pub fn await_not_task(span: Span, name: &str) -> (d: Diagnostic)
    ensures
        d@ == reports::await_not_task(span, name@),
{
    proof {
        reveal(reports::await_not_task);
    }
    Diagnostic::new(span, "`await` applies to a task, not ".to_owned().concat(name))
        .label("not a task")
        .note("a task comes from calling a `task fn`, and nothing else in v0")
}

pub fn scope_outside(span: Span) -> (d: Diagnostic)
    ensures
        d@ == reports::scope_outside(span),
{
    proof {
        reveal(reports::scope_outside);
    }
    Diagnostic::fixed(span, "a `scope` is only available inside a `task fn`")
        .label("only a task may start other tasks")
        .note("mark the enclosing function `task fn`")
}

pub fn spawn_outside(span: Span) -> (d: Diagnostic)
    ensures
        d@ == reports::spawn_outside(span),
{
    proof {
        reveal(reports::spawn_outside);
    }
    Diagnostic::fixed(span, "`spawn` is only available inside a `task fn`")
        .label("only a task may start other tasks")
        .note("mark the enclosing function `task fn`")
}

pub fn spawn_produces(span: Span, name: &str) -> (d: Diagnostic)
    ensures
        d@ == reports::spawn_produces(span, name@),
{
    proof {
        reveal(reports::spawn_produces);
    }
    Diagnostic::new(span, "`spawn` needs a task that produces (), and this one produces ".to_owned().concat(name))
        .label("nothing would receive the value")
        .note("there are no task handles in v0, so a spawned task has to say what happens to its own result")
}

pub fn spawn_not_task(span: Span, name: &str) -> (d: Diagnostic)
    ensures
        d@ == reports::spawn_not_task(span, name@),
{
    proof {
        reveal(reports::spawn_not_task);
    }
    Diagnostic::new(span, "`spawn` applies to a task, not ".to_owned().concat(name))
        .label("not a task")
}

pub fn namespace_not_value(span: Span, name: &str) -> (d: Diagnostic)
    ensures
        d@ == reports::namespace_not_value(span, name@),
{
    proof {
        reveal(reports::namespace_not_value);
    }
    Diagnostic::new(span, "`".to_owned().concat(name).concat("` is a module namespace, not a value"))
        .label("names a file")
        .note("reach what it exports through it, as in `".to_owned().concat(name).concat(".name`").as_str())
}

pub fn fn_not_value(span: Span, name: &str) -> (d: Diagnostic)
    ensures
        d@ == reports::fn_not_value(span, name@),
{
    proof {
        reveal(reports::fn_not_value);
    }
    Diagnostic::fixed(span, "functions are not values yet")
        .label("`".to_owned().concat(name).concat("` can only be called").as_str())
        .note("first-class functions arrive with closures in M7")
}

pub fn struct_not_value(span: Span, text: &str) -> (d: Diagnostic)
    ensures
        d@ == reports::struct_not_value(span, text@),
{
    proof {
        reveal(reports::struct_not_value);
    }
    Diagnostic::new(span, "`".to_owned().concat(text).concat("` is a struct, not a value"))
        .note("construct one, as in `".to_owned().concat(text).concat("(…)`").as_str())
}

pub fn reactor_not_value(span: Span, text: &str) -> (d: Diagnostic)
    ensures
        d@ == reports::reactor_not_value(span, text@),
{
    proof {
        reveal(reports::reactor_not_value);
    }
    Diagnostic::new(span, "`".to_owned().concat(text).concat("` is a reactor, not a value"))
        .note("create one with `spawn reactor ".to_owned().concat(text).concat("(…)`").as_str())
}

pub fn trait_not_value(span: Span, name: &str) -> (d: Diagnostic)
    ensures
        d@ == reports::trait_not_value(span, name@),
{
    proof {
        reveal(reports::trait_not_value);
    }
    Diagnostic::new(span, "`".to_owned().concat(name).concat("` is a trait, not a value"))
        .note("a trait names behaviour: implement it with `impl`, and reach its methods on a value")
}

pub fn unknown_name(span: Span, name: &str) -> (d: Diagnostic)
    ensures
        d@ == reports::unknown_name(span, name@),
{
    proof {
        reveal(reports::unknown_name);
    }
    Diagnostic::new(span, "unknown name `".to_owned().concat(name).concat("`"))
}

pub fn names_an_enum(span: Span, text: &str, example: &str) -> (d: Diagnostic)
    ensures
        d@ == reports::names_an_enum(span, text@, example@),
{
    proof {
        reveal(reports::names_an_enum);
    }
    Diagnostic::new(span, "`".to_owned().concat(text).concat("` is an enum"))
        .note("name the variant, as in `".to_owned().concat(text).concat(".").concat(example).concat("`").as_str())
}

pub fn no_variant(span: Span, name: &str, variant: &str) -> (d: Diagnostic)
    ensures
        d@ == reports::no_variant(span, name@, variant@),
{
    proof {
        reveal(reports::no_variant);
    }
    Diagnostic::new(span, "`".to_owned().concat(name).concat("` has no variant `").concat(variant).concat("`"))
        .label("unknown variant")
}

pub fn carries_payload(span: Span, name: &str, variant: &str, fields: &str) -> (d: Diagnostic)
    ensures
        d@ == reports::carries_payload(span, name@, variant@, fields@),
{
    proof {
        reveal(reports::carries_payload);
    }
    Diagnostic::new(span, "`".to_owned().concat(name).concat(".").concat(variant).concat("` carries a payload"))
        .label("not a unit variant")
        .note("construct it with its fields, as in `".to_owned().concat(name).concat(".").concat(variant).concat("(").concat(fields).concat(")`").as_str())
}

pub fn signal_assigned(span: Span, name: &str) -> (d: Diagnostic)
    ensures
        d@ == reports::signal_assigned(span, name@),
{
    proof {
        reveal(reports::signal_assigned);
    }
    Diagnostic::new(span, "`".to_owned().concat(name).concat("` is a signal, and a signal is never assigned"))
        .label("derived, not stored")
        .note("a signal *is* its expression; two definitions of one value is what assigning to it would mean")
        .note("to make it settable, declare it as `state` and assign it here instead")
}

pub fn signal_read(span: Span, name: &str, call: &str) -> (d: Diagnostic)
    ensures
        d@ == reports::signal_read(span, name@, call@),
{
    proof {
        reveal(reports::signal_read);
    }
    Diagnostic::new(span, "an `on` handler cannot read the signal `".to_owned().concat(name).concat("`"))
        .label("signals are recomputed after the handler runs")
        .note("reading it here would mean the previous turn's value, which is never what was meant")
        .note("call it with the values you mean: `".to_owned().concat(call).concat("`").as_str())
}

pub fn input_read(span: Span, name: &str) -> (d: Diagnostic)
    ensures
        d@ == reports::input_read(span, name@),
{
    proof {
        reveal(reports::input_read);
    }
    Diagnostic::new(span, "`".to_owned().concat(name).concat("` is an input, not a value"))
        .label("an input is a mailbox")
        .note("respond to it with `on {name}(…) {{ … }}`; a node body cannot read one")
}

pub fn member_out_of_scope(span: Span, name: &str, sort: &str) -> (d: Diagnostic)
    ensures
        d@ == reports::member_out_of_scope(span, name@, sort@),
{
    proof {
        reveal(reports::member_out_of_scope);
    }
    Diagnostic::new(span, "`".to_owned().concat(name).concat("` is not in scope here"))
        .label("a reactor ".to_owned().concat(sort).as_str())
}

pub fn member_private(span: Span, reactor: &str, name: &str) -> (d: Diagnostic)
    ensures
        d@ == reports::member_private(span, reactor@, name@),
{
    proof {
        reveal(reports::member_private);
    }
    Diagnostic::new(span, "`".to_owned().concat(reactor).concat("` has no input or exported signal `").concat(name).concat("`"))
        .label("declared, but not exported")
        .note("write `export signal ".to_owned().concat(name).concat("` to make it readable from outside").as_str())
}

pub fn member_unknown(span: Span, reactor: &str, name: &str) -> (d: Diagnostic)
    ensures
        d@ == reports::member_unknown(span, reactor@, name@),
{
    proof {
        reveal(reports::member_unknown);
    }
    Diagnostic::new(span, "`".to_owned().concat(reactor).concat("` has no input or exported signal `").concat(name).concat("`"))
        .label("unknown member")
}

pub fn no_fields(span: Span, ty: &str, name: &str) -> (d: Diagnostic)
    ensures
        d@ == reports::no_fields(span, ty@, name@),
{
    proof {
        reveal(reports::no_fields);
    }
    Diagnostic::new(span, ty.to_owned().concat(" has no fields"))
        .label("`".to_owned().concat(name).concat("` accessed here").as_str())
}

pub fn no_field(span: Span, strukt: &str, name: &str) -> (d: Diagnostic)
    ensures
        d@ == reports::no_field(span, strukt@, name@),
{
    proof {
        reveal(reports::no_field);
    }
    Diagnostic::new(span, "`".to_owned().concat(strukt).concat("` has no field `").concat(name).concat("`"))
        .label("unknown field")
}

pub fn not_indexable(span: Span, name: &str) -> (d: Diagnostic)
    ensures
        d@ == reports::not_indexable(span, name@),
{
    proof {
        reveal(reports::not_indexable);
    }
    Diagnostic::new(span, "only `Bytes` can be indexed in v0, not ".to_owned().concat(name))
        .note("collections and their indexing arrive with the standard library")
}

pub fn op_does_not_apply(span: Span, op: &str, name: &str) -> (d: Diagnostic)
    ensures
        d@ == reports::op_does_not_apply(span, op@, name@),
{
    proof {
        reveal(reports::op_does_not_apply);
    }
    Diagnostic::new(span, "`".to_owned().concat(op).concat("` does not apply to ").concat(name))
}

pub fn equality_does_not_apply(span: Span, op: &str, name: &str) -> (d: Diagnostic)
    ensures
        d@ == reports::equality_does_not_apply(span, op@, name@),
{
    proof {
        reveal(reports::equality_does_not_apply);
    }
    Diagnostic::new(span, "`".to_owned().concat(op).concat("` does not apply to ").concat(name))
        .note("structural equality on structs and enums is not derived yet; match instead")
}

pub fn after_outside(span: Span) -> (d: Diagnostic)
    ensures
        d@ == reports::after_outside(span),
{
    proof {
        reveal(reports::after_outside);
    }
    Diagnostic::fixed(span, "`after` is only available inside an `on` handler")
        .label("nothing here commits")
        .note("a signal derives a value and requests nothing; effects are asked for where state changes")
}

pub fn after_not_task(span: Span, name: &str) -> (d: Diagnostic)
    ensures
        d@ == reports::after_not_task(span, name@),
{
    proof {
        reveal(reports::after_not_task);
    }
    Diagnostic::new(span, "`after` describes work to start later, and this is ".to_owned().concat(name))
        .label("not a task")
        .note("call a `task fn`: the call builds the work without running it, which is what lets the snapshot be published first")
}

pub fn effect_dropped(span: Span, name: &str) -> (d: Diagnostic)
    ensures
        d@ == reports::effect_dropped(span, name@),
{
    proof {
        reveal(reports::effect_dropped);
    }
    Diagnostic::new(span, "this effect produces ".to_owned().concat(name).concat(", and nothing would receive it"))
        .label("the value is dropped")
        .note("name the input it comes back on: `after … -> handled`")
}

pub fn effect_no_input(span: Span, reactor: &str, name: &str) -> (d: Diagnostic)
    ensures
        d@ == reports::effect_no_input(span, reactor@, name@),
{
    proof {
        reveal(reports::effect_no_input);
    }
    Diagnostic::new(span, "`".to_owned().concat(reactor).concat("` has no input `").concat(name).concat("`"))
        .label("unknown input")
        .note("an effect's result comes back as a message, so it needs an input to arrive on")
}

pub fn effect_does_not_fit(span: Span, produced: &str, name: &str, wanted: &str) -> (d: Diagnostic)
    ensures
        d@ == reports::effect_does_not_fit(span, produced@, name@, wanted@),
{
    proof {
        reveal(reports::effect_does_not_fit);
    }
    Diagnostic::new(span, "this effect produces ".to_owned().concat(produced).concat(", but `").concat(name).concat("` takes ").concat(wanted))
        .label("the result would not fit")
}

pub fn assign_signal(span: Span, name: &str) -> (d: Diagnostic)
    ensures
        d@ == reports::assign_signal(span, name@),
{
    proof {
        reveal(reports::assign_signal);
    }
    Diagnostic::new(span, "`".to_owned().concat(name).concat("` is a signal, and a signal is never assigned"))
        .label("derived, not stored")
        .note("a signal *is* its expression; to make it settable, declare it as `state` and assign it in a handler")
}

pub fn assign_param(span: Span, name: &str) -> (d: Diagnostic)
    ensures
        d@ == reports::assign_param(span, name@),
{
    proof {
        reveal(reports::assign_param);
    }
    Diagnostic::new(span, "`".to_owned().concat(name).concat("` is a reactor parameter"))
        .label("fixed when the reactor was created")
        .note("declare a `state` cell initialised from it if it needs to change")
}

pub fn assign_state(span: Span, name: &str) -> (d: Diagnostic)
    ensures
        d@ == reports::assign_state(span, name@),
{
    proof {
        reveal(reports::assign_state);
    }
    Diagnostic::new(span, "`".to_owned().concat(name).concat("` can only be assigned inside an `on` handler"))
        .label("a node body is pure")
        .note("state changes are what a handler is for; a signal derives from state rather than setting it")
}

pub fn assign_message(span: Span, name: &str) -> (d: Diagnostic)
    ensures
        d@ == reports::assign_message(span, name@),
{
    proof {
        reveal(reports::assign_message);
    }
    Diagnostic::new(span, "`".to_owned().concat(name).concat("` is the message this handler was given"))
        .label("cannot assign")
}

pub fn assign_immutable(span: Span, name: &str) -> (d: Diagnostic)
    ensures
        d@ == reports::assign_immutable(span, name@),
{
    proof {
        reveal(reports::assign_immutable);
    }
    Diagnostic::new(span, "`".to_owned().concat(name).concat("` is not declared `mut`"))
        .label("cannot assign")
        .note("declare it as `let mut ".to_owned().concat(name).concat(" = …`").as_str())
}

pub fn assign_through_shared(span: Span) -> (d: Diagnostic)
    ensures
        d@ == reports::assign_through_shared(span),
{
    proof {
        reveal(reports::assign_through_shared);
    }
    Diagnostic::fixed(span, "cannot assign through a shared value")
        .label("shared values are immutable")
        .note("`unshare` it, change the copy, and `shared` the result")
}

pub fn assign_not_place(span: Span) -> (d: Diagnostic)
    ensures
        d@ == reports::assign_not_place(span),
{
    proof {
        reveal(reports::assign_not_place);
    }
    Diagnostic::fixed(span, "only a variable or one of its fields can be assigned")
}

pub fn if_without_else(span: Span, name: &str) -> (d: Diagnostic)
    ensures
        d@ == reports::if_without_else(span, name@),
{
    proof {
        reveal(reports::if_without_else);
    }
    Diagnostic::new(span, "an `if` without an `else` must produce (), found ".to_owned().concat(name))
}

pub fn while_is_unit(span: Span, name: &str) -> (d: Diagnostic)
    ensures
        d@ == reports::while_is_unit(span, name@),
{
    proof {
        reveal(reports::while_is_unit);
    }
    Diagnostic::new(span, "expected ".to_owned().concat(name).concat(", found ()"))
        .note("a `while` produces `()`; `loop` with `break value` is how a loop yields one")
}

pub fn break_outside(span: Span) -> (d: Diagnostic)
    ensures
        d@ == reports::break_outside(span),
{
    proof {
        reveal(reports::break_outside);
    }
    Diagnostic::fixed(span, "`break` is only available inside a loop")
        .label("there is no loop to leave")
}

pub fn break_value_in_while(span: Span) -> (d: Diagnostic)
    ensures
        d@ == reports::break_value_in_while(span),
{
    proof {
        reveal(reports::break_value_in_while);
    }
    Diagnostic::fixed(span, "`break` can only carry a value out of a `loop`")
        .label("this `while` produces ()")
}

pub fn break_needs_value(span: Span, result: &str) -> (d: Diagnostic)
    ensures
        d@ == reports::break_needs_value(span, result@),
{
    proof {
        reveal(reports::break_needs_value);
    }
    Diagnostic::fixed(span, "`break` needs a value here")
        .label("this leaves the loop with nothing, and the loop produces ".to_owned().concat(result).as_str())
}

pub fn continue_outside(span: Span) -> (d: Diagnostic)
    ensures
        d@ == reports::continue_outside(span),
{
    proof {
        reveal(reports::continue_outside);
    }
    Diagnostic::fixed(span, "`continue` is only available inside a loop")
        .label("there is no loop to continue")
}

pub fn empty_match(span: Span) -> (d: Diagnostic)
    ensures
        d@ == reports::empty_match(span),
{
    proof {
        reveal(reports::empty_match);
    }
    Diagnostic::fixed(span, "a `match` needs at least one arm")
}

pub fn needs_catch_all(span: Span, name: &str) -> (d: Diagnostic)
    ensures
        d@ == reports::needs_catch_all(span, name@),
{
    proof {
        reveal(reports::needs_catch_all);
    }
    Diagnostic::new(span, "this `match` on ".to_owned().concat(name).concat(" needs a catch-all arm"))
        .note("add `_ => …`")
}

pub fn not_exhaustive(span: Span, missing: &str) -> (d: Diagnostic)
    ensures
        d@ == reports::not_exhaustive(span, missing@),
{
    proof {
        reveal(reports::not_exhaustive);
    }
    Diagnostic::new(span, "this `match` does not cover ".to_owned().concat(missing))
        .label("not exhaustive")
        .note("add the missing arms, or a `_ => …` catch-all")
}

pub fn fails_differently(span: Span, err: &str, ret: &str) -> (d: Diagnostic)
    ensures
        d@ == reports::fails_differently(span, err@, ret@),
{
    proof {
        reveal(reports::fails_differently);
    }
    Diagnostic::new(span, "this fails with ".to_owned().concat(err).concat(", but the function fails with ").concat(ret))
        .note("there is no automatic error conversion; match and rebuild the error")
}

pub fn cannot_propagate(span: Span, ret: &str) -> (d: Diagnostic)
    ensures
        d@ == reports::cannot_propagate(span, ret@),
{
    proof {
        reveal(reports::cannot_propagate);
    }
    Diagnostic::new(span, "`?` needs the function to return the same shape, but it returns ".to_owned().concat(ret))
        .label("cannot propagate here")
}

pub fn try_not_applicable(span: Span, name: &str) -> (d: Diagnostic)
    ensures
        d@ == reports::try_not_applicable(span, name@),
{
    proof {
        reveal(reports::try_not_applicable);
    }
    Diagnostic::new(span, "`?` applies to Result and Option, not ".to_owned().concat(name))
}

pub fn alternatives_bind(span: Span) -> (d: Diagnostic)
    ensures
        d@ == reports::alternatives_bind(span),
{
    proof {
        reveal(reports::alternatives_bind);
    }
    Diagnostic::fixed(span, "an alternative pattern may not bind names yet")
        .note("each alternative would have to bind the same names; write separate arms")
}

pub fn pattern_mismatch(span: Span, found: &str, expected: &str) -> (d: Diagnostic)
    ensures
        d@ == reports::pattern_mismatch(span, found@, expected@),
{
    proof {
        reveal(reports::pattern_mismatch);
    }
    Diagnostic::new(span, "this pattern matches ".to_owned().concat(found).concat(", but the value is ").concat(expected))
}

pub fn unknown_struct(span: Span, name: &str) -> (d: Diagnostic)
    ensures
        d@ == reports::unknown_struct(span, name@),
{
    proof {
        reveal(reports::unknown_struct);
    }
    Diagnostic::new(span, "unknown struct `".to_owned().concat(name).concat("`"))
}

pub fn unknown_enum(span: Span, name: &str) -> (d: Diagnostic)
    ensures
        d@ == reports::unknown_enum(span, name@),
{
    proof {
        reveal(reports::unknown_enum);
    }
    Diagnostic::new(span, "unknown enum `".to_owned().concat(name).concat("`"))
}

pub fn unknown_ctor(span: Span, text: &str) -> (d: Diagnostic)
    ensures
        d@ == reports::unknown_ctor(span, text@),
{
    proof {
        reveal(reports::unknown_ctor);
    }
    Diagnostic::new(span, "unknown constructor `".to_owned().concat(text).concat("`"))
}

pub fn builtin_pat_mismatch(span: Span, name: &str, ty: &str) -> (d: Diagnostic)
    ensures
        d@ == reports::builtin_pat_mismatch(span, name@, ty@),
{
    proof {
        reveal(reports::builtin_pat_mismatch);
    }
    Diagnostic::new(span, "`".to_owned().concat(name).concat("` matches Option or Result, but the value is ").concat(ty))
}

pub fn mixed_pat_args(span: Span) -> (d: Diagnostic)
    ensures
        d@ == reports::mixed_pat_args(span),
{
    proof {
        reveal(reports::mixed_pat_args);
    }
    Diagnostic::fixed(span, "pattern arguments are either all named or all positional")
}

pub fn too_many_pat_args(
    span: Span,
    subject: &str,
    want: &str,
    s: &str,
    found: &str,
) -> (d: Diagnostic)
    ensures
        d@ == reports::too_many_pat_args(span, subject@, want@, s@, found@),
{
    proof {
        reveal(reports::too_many_pat_args);
    }
    Diagnostic::new(span, "`".to_owned().concat(subject).concat("` has ").concat(want).concat(" field").concat(s).concat(", found ").concat(found))
}

pub fn too_few_pat_args(
    span: Span,
    subject: &str,
    want: &str,
    s: &str,
    found: &str,
) -> (d: Diagnostic)
    ensures
        d@ == reports::too_few_pat_args(span, subject@, want@, s@, found@),
{
    proof {
        reveal(reports::too_few_pat_args);
    }
    Diagnostic::new(span, "`".to_owned().concat(subject).concat("` has ").concat(want).concat(" field").concat(s).concat(", found ").concat(found))
        .note("write `..` to ignore the rest")
}

pub fn no_pat_field(span: Span, subject: &str, name: &str) -> (d: Diagnostic)
    ensures
        d@ == reports::no_pat_field(span, subject@, name@),
{
    proof {
        reveal(reports::no_pat_field);
    }
    Diagnostic::new(span, "`".to_owned().concat(subject).concat("` has no field named `").concat(name).concat("`"))
        .label("unknown field")
}

pub fn matched_twice(span: Span, name: &str) -> (d: Diagnostic)
    ensures
        d@ == reports::matched_twice(span, name@),
{
    proof {
        reveal(reports::matched_twice);
    }
    Diagnostic::new(span, "`".to_owned().concat(name).concat("` is matched twice"))
}

pub fn missing_pat_fields(span: Span, missing: &str) -> (d: Diagnostic)
    ensures
        d@ == reports::missing_pat_fields(span, missing@),
{
    proof {
        reveal(reports::missing_pat_fields);
    }
    Diagnostic::new(span, "missing fields: ".to_owned().concat(missing))
        .note("write `..` to ignore the rest")
}

pub fn not_callable(span: Span) -> (d: Diagnostic)
    ensures
        d@ == reports::not_callable(span),
{
    proof {
        reveal(reports::not_callable);
    }
    Diagnostic::fixed(span, "only a named function or a method can be called")
        .note("function values arrive with M7; nothing else produces something callable")
}

pub fn ctor_type_args(span: Span, name: &str) -> (d: Diagnostic)
    ensures
        d@ == reports::ctor_type_args(span, name@),
{
    proof {
        reveal(reports::ctor_type_args);
    }
    Diagnostic::new(span, "`".to_owned().concat(name).concat("` takes no type arguments"))
        .note("its payload type comes from the expectation; annotate the binding instead")
}

pub fn builtin_type_args(span: Span, name: &str) -> (d: Diagnostic)
    ensures
        d@ == reports::builtin_type_args(span, name@),
{
    proof {
        reveal(reports::builtin_type_args);
    }
    Diagnostic::new(span, "`".to_owned().concat(name).concat("` takes no type arguments"))
        .note("builtins are typed by what they are handed, never by arguments")
}

pub fn unknown_function(span: Span, name: &str) -> (d: Diagnostic)
    ensures
        d@ == reports::unknown_function(span, name@),
{
    proof {
        reveal(reports::unknown_function);
    }
    Diagnostic::new(span, "unknown function `".to_owned().concat(name).concat("`"))
}

pub fn param_not_ctor(span: Span, name: &str, fn_name: &str) -> (d: Diagnostic)
    ensures
        d@ == reports::param_not_ctor(span, name@, fn_name@),
{
    proof {
        reveal(reports::param_not_ctor);
    }
    Diagnostic::new(span, "`".to_owned().concat(name).concat("` is a type parameter, not a constructor"))
        .label("a bare parameter cannot be built")
        .note("`".to_owned().concat(name).concat("` is opaque inside `").concat(fn_name).concat("`: without a bound it can only be moved, stored, matched by binding, or passed on").as_str())
}

pub fn reactor_not_fn(span: Span, name: &str) -> (d: Diagnostic)
    ensures
        d@ == reports::reactor_not_fn(span, name@),
{
    proof {
        reveal(reports::reactor_not_fn);
    }
    Diagnostic::new(span, "`".to_owned().concat(name).concat("` is a reactor"))
        .label("not a function")
        .note("create one with `spawn reactor ".to_owned().concat(name).concat("(…)`").as_str())
}

pub fn trait_not_fn(span: Span, name: &str) -> (d: Diagnostic)
    ensures
        d@ == reports::trait_not_fn(span, name@),
{
    proof {
        reveal(reports::trait_not_fn);
    }
    Diagnostic::new(span, "`".to_owned().concat(name).concat("` is a trait"))
        .label("not a function")
        .note("implement it with `impl ".to_owned().concat(name).concat(" for …`; its methods are reached on a value").as_str())
}

pub fn state_not_fn(span: Span, name: &str) -> (d: Diagnostic)
    ensures
        d@ == reports::state_not_fn(span, name@),
{
    proof {
        reveal(reports::state_not_fn);
    }
    Diagnostic::new(span, "`".to_owned().concat(name).concat("` is a state cell, not a function"))
        .label("state holds a value; it does not derive one")
        .note("only a signal has a body to call")
}

pub fn reactor_param_not_fn(span: Span, name: &str) -> (d: Diagnostic)
    ensures
        d@ == reports::reactor_param_not_fn(span, name@),
{
    proof {
        reveal(reports::reactor_param_not_fn);
    }
    Diagnostic::new(span, "`".to_owned().concat(name).concat("` is a reactor parameter, not a function"))
        .label("a parameter holds a value; it does not derive one")
        .note("only a signal has a body to call")
}

pub fn input_not_fn(span: Span, name: &str) -> (d: Diagnostic)
    ensures
        d@ == reports::input_not_fn(span, name@),
{
    proof {
        reveal(reports::input_not_fn);
    }
    Diagnostic::new(span, "`".to_owned().concat(name).concat("` is an input, not a function"))
        .label("an input is a mailbox")
        .note("respond to it with `on ".to_owned().concat(name).concat("(…) { … }`").as_str())
}

pub fn builtin_arity(span: Span, name: &str, want: &str, s: &str) -> (d: Diagnostic)
    ensures
        d@ == reports::builtin_arity(span, name@, want@, s@),
{
    proof {
        reveal(reports::builtin_arity);
    }
    Diagnostic::new(span, "`".to_owned().concat(name).concat("` takes ").concat(want).concat(" positional argument").concat(s))
}

pub fn send_not_input(span: Span, name: &str) -> (d: Diagnostic)
    ensures
        d@ == reports::send_not_input(span, name@),
{
    proof {
        reveal(reports::send_not_input);
    }
    Diagnostic::new(span, "`send` needs an input of a reactor, not ".to_owned().concat(name))
        .label("not an input")
        .note("name one on a handle, as in `send(gate.opened, ())`")
}

pub fn latest_not_signal(span: Span, name: &str) -> (d: Diagnostic)
    ensures
        d@ == reports::latest_not_signal(span, name@),
{
    proof {
        reveal(reports::latest_not_signal);
    }
    Diagnostic::new(span, "`latest` needs an exported signal, not ".to_owned().concat(name))
        .label("not a signal")
        .note("name one on a handle, as in `latest(gate.snapshot)`")
}

pub fn spawn_reactor_outside(span: Span) -> (d: Diagnostic)
    ensures
        d@ == reports::spawn_reactor_outside(span),
{
    proof {
        reveal(reports::spawn_reactor_outside);
    }
    Diagnostic::fixed(span, "`spawn reactor` is only available inside a `task fn`")
        .label("only a task may own a reactor")
        .note("mark the enclosing function `task fn`")
}

pub fn spawn_reactor_unscoped(span: Span) -> (d: Diagnostic)
    ensures
        d@ == reports::spawn_reactor_unscoped(span),
{
    proof {
        reveal(reports::spawn_reactor_unscoped);
    }
    Diagnostic::fixed(span, "`spawn reactor` must appear inside a `scope`")
        .label("nothing here would cancel it")
        .note("wrap it in `scope { … }`: a reactor may not outlive the scope that started it")
}

pub fn not_a_reactor(span: Span, name: &str) -> (d: Diagnostic)
    ensures
        d@ == reports::not_a_reactor(span, name@),
{
    proof {
        reveal(reports::not_a_reactor);
    }
    Diagnostic::new(span, "`".to_owned().concat(name).concat("` is not a reactor"))
        .label("not a reactor")
}

pub fn unknown_reactor(span: Span, name: &str) -> (d: Diagnostic)
    ensures
        d@ == reports::unknown_reactor(span, name@),
{
    proof {
        reveal(reports::unknown_reactor);
    }
    Diagnostic::new(span, "unknown reactor `".to_owned().concat(name).concat("`"))
        .label("not a reactor")
}

pub fn mixed_args(span: Span) -> (d: Diagnostic)
    ensures
        d@ == reports::mixed_args(span),
{
    proof {
        reveal(reports::mixed_args);
    }
    Diagnostic::fixed(span, "arguments are either all named or all positional")
        .note("mixing the two forms would need a precedence rule nobody should have to learn")
}

pub fn arg_count(
    span: Span,
    subject: &str,
    want: &str,
    noun: &str,
    s: &str,
    found: &str,
) -> (d: Diagnostic)
    ensures
        d@ == reports::arg_count(span, subject@, want@, noun@, s@, found@),
{
    proof {
        reveal(reports::arg_count);
    }
    Diagnostic::new(span, "`".to_owned().concat(subject).concat("` takes ").concat(want).concat(" ").concat(noun).concat(s).concat(", found ").concat(found))
}

pub fn no_such_arg(span: Span, subject: &str, noun: &str, name: &str) -> (d: Diagnostic)
    ensures
        d@ == reports::no_such_arg(span, subject@, noun@, name@),
{
    proof {
        reveal(reports::no_such_arg);
    }
    Diagnostic::new(span, "`".to_owned().concat(subject).concat("` has no ").concat(noun).concat(" named `").concat(name).concat("`"))
        .label("unknown ".to_owned().concat(noun).as_str())
}

pub fn arg_twice(span: Span, name: &str) -> (d: Diagnostic)
    ensures
        d@ == reports::arg_twice(span, name@),
{
    proof {
        reveal(reports::arg_twice);
    }
    Diagnostic::new(span, "`".to_owned().concat(name).concat("` is given twice"))
}

pub fn missing_args(span: Span, noun: &str, s: &str, missing: &str) -> (d: Diagnostic)
    ensures
        d@ == reports::missing_args(span, noun@, s@, missing@),
{
    proof {
        reveal(reports::missing_args);
    }
    Diagnostic::new(span, "missing ".to_owned().concat(noun).concat(s).concat(": ").concat(missing))
}

pub fn none_takes_nothing(span: Span) -> (d: Diagnostic)
    ensures
        d@ == reports::none_takes_nothing(span),
{
    proof {
        reveal(reports::none_takes_nothing);
    }
    Diagnostic::fixed(span, "`None` takes no arguments")
}

pub fn takes_one_positional(span: Span, name: &str) -> (d: Diagnostic)
    ensures
        d@ == reports::takes_one_positional(span, name@),
{
    proof {
        reveal(reports::takes_one_positional);
    }
    Diagnostic::new(span, "`".to_owned().concat(name).concat("` takes one positional argument"))
}

pub fn uninferable(span: Span, what: &str, example: &str) -> (d: Diagnostic)
    ensures
        d@ == reports::uninferable(span, what@, example@),
{
    proof {
        reveal(reports::uninferable);
    }
    Diagnostic::new(span, "cannot tell what type `".to_owned().concat(what).concat("` builds here"))
        .label("no expected type at this position")
        .note("annotate the binding or the return type, as in `let x: ".to_owned().concat(example).concat(" = …`").as_str())
}

pub fn generic_trait(span: Span) -> (d: Diagnostic)
    ensures
        d@ == reports::generic_trait(span),
{
    proof {
        reveal(reports::generic_trait);
    }
    Diagnostic::fixed(span, "a trait takes no type parameters yet")
        .label("generic traits are not available")
        .note("the one type a trait abstracts over is `Self`; traits over more arrive with a later milestone")
}

pub fn task_member(span: Span, label: &str) -> (d: Diagnostic)
    ensures
        d@ == reports::task_member(span, label@),
{
    proof {
        reveal(reports::task_member);
    }
    Diagnostic::fixed(span, "a trait member is a plain `fn` for now")
        .label(label.to_owned().as_str())
        .note("task methods and their capability clauses arrive with a later milestone")
}

pub fn generic_member(span: Span, name: &str, label: &str, teach: &str) -> (d: Diagnostic)
    ensures
        d@ == reports::generic_member(span, name@, label@, teach@),
{
    proof {
        reveal(reports::generic_member);
    }
    Diagnostic::new(span, "`".to_owned().concat(name).concat("` takes no type parameters"))
        .label(label.to_owned().as_str())
        .note(teach.to_owned().as_str())
}

pub fn no_receiver(span: Span, name: &str) -> (d: Diagnostic)
    ensures
        d@ == reports::no_receiver(span, name@),
{
    proof {
        reveal(reports::no_receiver);
    }
    Diagnostic::new(span, "`".to_owned().concat(name).concat("`'s first parameter must be `Self`"))
        .label("no receiver")
        .note("the method spelling `value.".to_owned().concat(name).concat("(…)` passes the receiver as the first argument").as_str())
        .note("a receiver reads by default; a consuming method declares `sink Self`")
}

pub fn generic_impl(span: Span) -> (d: Diagnostic)
    ensures
        d@ == reports::generic_impl(span),
{
    proof {
        reveal(reports::generic_impl);
    }
    Diagnostic::fixed(span, "generic impls are not available yet")
        .label("type parameters on an `impl`")
        .note("write the impl for each concrete type; `impl<T> … for List<T>` arrives with a later milestone")
}

pub fn eq_by_hand(span: Span) -> (d: Diagnostic)
    ensures
        d@ == reports::eq_by_hand(span),
{
    proof {
        reveal(reports::eq_by_hand);
    }
    Diagnostic::fixed(span, "`Eq` cannot be implemented by hand")
        .label("compiler-defined")
        .note("exactly `I64`, `F64`, `Bool`, `String`, and `Bytes` are `Eq`; derived equality for your own types arrives with BOOTSTRAP.md §8 item 9")
}

pub fn cannot_implement(span: Span, name: &str) -> (d: Diagnostic)
    ensures
        d@ == reports::cannot_implement(span, name@),
{
    proof {
        reveal(reports::cannot_implement);
    }
    Diagnostic::new(span, name.to_owned().concat(" cannot implement a trait"))
        .label("not a named type")
        .note("a trait is implemented for a struct, an enum, or one of `I64`, `F64`, `Bool`, `String`, `Bytes`")
}

pub fn orphan_builtin(span: Span, trait_name: &str, receiver: &str) -> (d: Diagnostic)
    ensures
        d@ == reports::orphan_builtin(span, trait_name@, receiver@),
{
    proof {
        reveal(reports::orphan_builtin);
    }
    Diagnostic::new(span, "this impl lives in neither `".to_owned().concat(trait_name).concat("`'s module nor `").concat(receiver).concat("`'s"))
        .label("an impl travels with its trait or its type")
        .note("`".to_owned().concat(receiver).concat("` is built in, so only the module that declares `").concat(trait_name).concat("` may implement it").as_str())
}

pub fn orphan(span: Span, trait_name: &str, receiver: &str) -> (d: Diagnostic)
    ensures
        d@ == reports::orphan(span, trait_name@, receiver@),
{
    proof {
        reveal(reports::orphan);
    }
    Diagnostic::new(span, "this impl lives in neither `".to_owned().concat(trait_name).concat("`'s module nor `").concat(receiver).concat("`'s"))
        .label("an impl travels with its trait or its type")
        .note("move it beside the `trait` declaration or beside the type it implements it for")
}

pub fn second_impl(span: Span, trait_name: &str, receiver: &str, place: &str) -> (d: Diagnostic)
    ensures
        d@ == reports::second_impl(span, trait_name@, receiver@, place@),
{
    proof {
        reveal(reports::second_impl);
    }
    Diagnostic::new(span, "`".to_owned().concat(trait_name).concat("` is already implemented for `").concat(receiver).concat("`"))
        .label("second impl")
        .note("one impl per trait and type, program-wide; the other is ".to_owned().concat(place).as_str())
}

pub fn not_in_trait(span: Span, trait_name: &str, name: &str, roster: &str) -> (d: Diagnostic)
    ensures
        d@ == reports::not_in_trait(span, trait_name@, name@, roster@),
{
    proof {
        reveal(reports::not_in_trait);
    }
    Diagnostic::new(span, "`".to_owned().concat(trait_name).concat("` has no method `").concat(name).concat("`"))
        .label("not in the trait")
        .note("an impl provides exactly the trait's methods; `".to_owned().concat(trait_name).concat("` declares ").concat(roster).as_str())
}

pub fn signature_conflict(
    span: Span,
    name: &str,
    trait_name: &str,
    receiver: &str,
    shape: &str,
    ret: &str,
) -> (d: Diagnostic)
    ensures
        d@ == reports::signature_conflict(span, name@, trait_name@, receiver@, shape@, ret@),
{
    proof {
        reveal(reports::signature_conflict);
    }
    Diagnostic::new(span, "the signature of `".to_owned().concat(name).concat("` does not match `").concat(trait_name).concat("`'s"))
        .label("conflicting signature")
        .note("for `".to_owned().concat(receiver).concat("`, the trait asks for `fn ").concat(name).concat("(").concat(shape).concat(") -> ").concat(ret).concat("`").as_str())
}

pub fn mode_conflict(span: Span, name: &str, trait_name: &str) -> (d: Diagnostic)
    ensures
        d@ == reports::mode_conflict(span, name@, trait_name@),
{
    proof {
        reveal(reports::mode_conflict);
    }
    Diagnostic::new(span, "`".to_owned().concat(name).concat("` and `").concat(trait_name).concat("`'s declaration disagree about `sink`"))
        .label("conflicting mode")
        .note("a parameter's mode is the trait's to declare: whether the caller keeps the value is part of the contract, and every impl spells the same one")
}

pub fn incomplete_impl(
    span: Span,
    trait_name: &str,
    receiver: &str,
    missing: &str,
) -> (d: Diagnostic)
    ensures
        d@ == reports::incomplete_impl(span, trait_name@, receiver@, missing@),
{
    proof {
        reveal(reports::incomplete_impl);
    }
    Diagnostic::new(span, "`impl ".to_owned().concat(trait_name).concat(" for ").concat(receiver).concat("` does not implement ").concat(missing))
        .label("incomplete impl")
        .note("a type implements all of a trait or none of it")
}

pub fn type_not_trait(span: Span, name: &str, what: &str) -> (d: Diagnostic)
    ensures
        d@ == reports::type_not_trait(span, name@, what@),
{
    proof {
        reveal(reports::type_not_trait);
    }
    Diagnostic::new(span, "`".to_owned().concat(name).concat("` is ").concat(what).concat(", not a trait"))
        .label("a type cannot stand here")
        .note("a bound (`T: Display`) and an `impl` header both name a trait; a type is what implements one")
}

pub fn unknown_trait(span: Span, name: &str) -> (d: Diagnostic)
    ensures
        d@ == reports::unknown_trait(span, name@),
{
    proof {
        reveal(reports::unknown_trait);
    }
    Diagnostic::new(span, "unknown trait `".to_owned().concat(name).concat("`"))
}

pub fn decl_not_trait(span: Span, text: &str, kind: &str) -> (d: Diagnostic)
    ensures
        d@ == reports::decl_not_trait(span, text@, kind@),
{
    proof {
        reveal(reports::decl_not_trait);
    }
    Diagnostic::new(span, "`".to_owned().concat(text).concat("` is a ").concat(kind).concat(", not a trait"))
        .label("cannot be implemented")
}

pub fn method_type_args(span: Span, name: &str) -> (d: Diagnostic)
    ensures
        d@ == reports::method_type_args(span, name@),
{
    proof {
        reveal(reports::method_type_args);
    }
    Diagnostic::new(span, "`".to_owned().concat(name).concat("` takes no type arguments"))
        .note("a method's types are fixed by its trait and its receiver")
}

pub fn input_not_method(span: Span, name: &str) -> (d: Diagnostic)
    ensures
        d@ == reports::input_not_method(span, name@),
{
    proof {
        reveal(reports::input_not_method);
    }
    Diagnostic::new(span, "`".to_owned().concat(name).concat("` is an input, not a method"))
        .label("an input is a mailbox")
        .note("put a message in it with `send(handle.".to_owned().concat(name).concat(", …)`").as_str())
}

pub fn signal_not_method(span: Span, name: &str) -> (d: Diagnostic)
    ensures
        d@ == reports::signal_not_method(span, name@),
{
    proof {
        reveal(reports::signal_not_method);
    }
    Diagnostic::new(span, "`".to_owned().concat(name).concat("` is an exported signal, not a method"))
        .label("a signal is read, not called")
        .note("read its latest published value with `latest(handle.".to_owned().concat(name).concat(")`").as_str())
}

pub fn bare_param_method(span: Span, name: &str, method: &str) -> (d: Diagnostic)
    ensures
        d@ == reports::bare_param_method(span, name@, method@),
{
    proof {
        reveal(reports::bare_param_method);
    }
    Diagnostic::new(span, "a bare `".to_owned().concat(name).concat("` has no methods"))
        .label("`".to_owned().concat(method).concat("` called on a type parameter").as_str())
}

pub fn no_bound_provides(span: Span, name: &str, method: &str, roster: &str) -> (d: Diagnostic)
    ensures
        d@ == reports::no_bound_provides(span, name@, method@, roster@),
{
    proof {
        reveal(reports::no_bound_provides);
    }
    Diagnostic::new(span, "none of `".to_owned().concat(name).concat("`'s bounds provides `").concat(method).concat("`"))
        .label("not in the bounds")
        .note("a method on `".to_owned().concat(name).concat("` must come from a declared bound; here that is ").concat(roster).as_str())
}

pub fn ambiguous_bounds(span: Span, name: &str, method: &str) -> (d: Diagnostic)
    ensures
        d@ == reports::ambiguous_bounds(span, name@, method@),
{
    proof {
        reveal(reports::ambiguous_bounds);
    }
    Diagnostic::new(span, "more than one of `".to_owned().concat(name).concat("`'s bounds provides `").concat(method).concat("`"))
        .label("ambiguous method")
}

pub fn field_not_method(span: Span, name: &str, ty: &str) -> (d: Diagnostic)
    ensures
        d@ == reports::field_not_method(span, name@, ty@),
{
    proof {
        reveal(reports::field_not_method);
    }
    Diagnostic::new(span, "`".to_owned().concat(name).concat("` is a field of ").concat(ty).concat(", not a method"))
        .label("fields hold values; they cannot be called")
        .note("an `impl` is what gives a type methods")
}

pub fn no_method(span: Span, ty: &str, name: &str) -> (d: Diagnostic)
    ensures
        d@ == reports::no_method(span, ty@, name@),
{
    proof {
        reveal(reports::no_method);
    }
    Diagnostic::new(span, ty.to_owned().concat(" has no method `").concat(name).concat("`"))
        .label("no impl provides it")
        .note("a method comes from a trait: an `impl` with a `fn ".to_owned().concat(name).concat("` taking ").concat(ty).concat(" is what declares one").as_str())
}

pub fn ambiguous_method(span: Span, ty: &str, name: &str) -> (d: Diagnostic)
    ensures
        d@ == reports::ambiguous_method(span, ty@, name@),
{
    proof {
        reveal(reports::ambiguous_method);
    }
    Diagnostic::new(span, ty.to_owned().concat(" has more than one method named `").concat(name).concat("`"))
        .label("ambiguous method")
}

pub fn too_deep(span: Span) -> (d: Diagnostic)
    ensures
        d@ == reports::too_deep(span),
{
    proof {
        reveal(reports::too_deep);
    }
    Diagnostic::fixed(span, "generic instantiation recursed too deeply")
        .label("more than 32 levels of substitution")
        .note("a type that grows with every substitution never converges; check for a type argument that mentions the type it instantiates")
}

pub fn too_many_types(span: Span) -> (d: Diagnostic)
    ensures
        d@ == reports::too_many_types(span),
{
    proof {
        reveal(reports::too_many_types);
    }
    Diagnostic::fixed(span, "this program needs more than 4096 generic instances")
        .label("instantiation stopped here")
        .note("a ceiling this size is only ever reached by a type that grows under substitution and never converges")
}

pub fn too_many_fns(span: Span) -> (d: Diagnostic)
    ensures
        d@ == reports::too_many_fns(span),
{
    proof {
        reveal(reports::too_many_fns);
    }
    Diagnostic::fixed(span, "this program needs more than 4096 generic instances")
        .label("instantiation stopped here")
        .note("a ceiling this size is only ever reached by an instantiation that never converges")
}

pub fn ever_deeper(span: Span, name: &str) -> (d: Diagnostic)
    ensures
        d@ == reports::ever_deeper(span, name@),
{
    proof {
        reveal(reports::ever_deeper);
    }
    Diagnostic::new(span, "`".to_owned().concat(name).concat("` instantiates itself at an ever-deeper type"))
        .label("more than 32 instantiations deep")
        .note("a generic function that calls itself at a bigger type than it was given never stops instantiating; make the recursion reuse the caller's own type parameters")
}

pub fn eq_unsatisfied(
    span: Span,
    display: &str,
    param: &str,
    trait_name: &str,
    ty: &str,
) -> (d: Diagnostic)
    ensures
        d@ == reports::eq_unsatisfied(span, display@, param@, trait_name@, ty@),
{
    proof {
        reveal(reports::eq_unsatisfied);
    }
    Diagnostic::new(span, "`".to_owned().concat(display).concat("` requires `").concat(param).concat(": ").concat(trait_name).concat("`, and `").concat(ty).concat("` is not `").concat(trait_name).concat("`"))
        .label("`".to_owned().concat(param).concat("` is `").concat(ty).concat("` here").as_str())
        .note("`Eq` is compiler-defined: exactly `I64`, `F64`, `Bool`, `String`, and `Bytes` satisfy it until derived equality lands (BOOTSTRAP.md §8 item 9)")
}

pub fn bound_unsatisfied(
    span: Span,
    display: &str,
    param: &str,
    trait_name: &str,
    ty: &str,
) -> (d: Diagnostic)
    ensures
        d@ == reports::bound_unsatisfied(span, display@, param@, trait_name@, ty@),
{
    proof {
        reveal(reports::bound_unsatisfied);
    }
    Diagnostic::new(span, "`".to_owned().concat(display).concat("` requires `").concat(param).concat(": ").concat(trait_name).concat("`, and `").concat(ty).concat("` is not `").concat(trait_name).concat("`"))
        .label("`".to_owned().concat(param).concat("` is `").concat(ty).concat("` here").as_str())
        .note("write `impl ".to_owned().concat(trait_name).concat(" for ").concat(ty).concat(" { … }` in the trait's module or the type's").as_str())
}

pub fn call_uninferable(span: Span, param: &str, display: &str) -> (d: Diagnostic)
    ensures
        d@ == reports::call_uninferable(span, param@, display@),
{
    proof {
        reveal(reports::call_uninferable);
    }
    Diagnostic::new(span, "cannot tell what type `".to_owned().concat(param).concat("` is in this call of `").concat(display).concat("`"))
        .label("no argument or expectation pins it down")
        .note("say it explicitly, as in `".to_owned().concat(display).concat("<I64>(…)`").as_str())
}

pub fn construction_uninferable(
    span: Span,
    param: &str,
    display: &str,
    example: &str,
) -> (d: Diagnostic)
    ensures
        d@ == reports::construction_uninferable(span, param@, display@, example@),
{
    proof {
        reveal(reports::construction_uninferable);
    }
    Diagnostic::new(span, "cannot tell what type `".to_owned().concat(param).concat("` is in this construction of `").concat(display).concat("`"))
        .label("no argument or expectation pins it down")
        .note("annotate the binding, as in `let x: ".to_owned().concat(display).concat("<").concat(example).concat("> = …`").as_str())
}

pub fn shared_affine(span: Span, name: &str) -> (d: Diagnostic)
    ensures
        d@ == reports::shared_affine(span, name@),
{
    proof {
        reveal(reports::shared_affine);
    }
    Diagnostic::new(span, "`shared` cannot take ".to_owned().concat(name))
        .label("instantiated here with an affine payload")
        .note("resources and tasks have exactly one owner; share the data, not the handle")
}

pub fn slots_affine(span: Span, name: &str) -> (d: Diagnostic)
    ensures
        d@ == reports::slots_affine(span, name@),
{
    proof {
        reveal(reports::slots_affine);
    }
    Diagnostic::new(span, "a `Slots` value cannot hold ".to_owned().concat(name))
        .label("instantiated here with an affine element")
        .note("resources and tasks have exactly one owner; hold the data, not the handle")
}

pub fn member_ctor_name(span: Span, name: &str) -> (d: Diagnostic)
    ensures
        d@ == reports::member_ctor_name(span, name@),
{
    proof {
        reveal(reports::member_ctor_name);
    }
    Diagnostic::new(span, "`".to_owned().concat(name).concat("` cannot be the name of a member"))
        .label("a built-in constructor")
        .note("`None`, `Some`, `Ok`, and `Err` always name the Option and Result constructors")
}

pub fn member_twice(span: Span, name: &str, reactor: &str, first: Span) -> (d: Diagnostic)
    ensures
        d@ == reports::member_twice(span, name@, reactor@, first),
{
    proof {
        reveal(reports::member_twice);
    }
    Diagnostic::new(span, "`".to_owned().concat(name).concat("` is declared twice in `").concat(reactor).concat("`"))
        .label("duplicate member")
        .secondary(first, "first declared here")
}

pub fn param_mode(span: Span, word: &str) -> (d: Diagnostic)
    ensures
        d@ == reports::param_mode(span, word@),
{
    proof {
        reveal(reports::param_mode);
    }
    Diagnostic::fixed(span, "a reactor parameter has no mode")
        .label("`".to_owned().concat(word).concat("` does not apply here").as_str())
        .note("`spawn reactor` always hands its arguments over; there is no call for a mode to describe")
}

pub fn on_needs_queue(span: Span, name: &str, bound: &str) -> (d: Diagnostic)
    ensures
        d@ == reports::on_needs_queue(span, name@, bound@),
{
    proof {
        reveal(reports::on_needs_queue);
    }
    Diagnostic::new(span, "a type here declares `".to_owned().concat(name).concat("`, so it needs a queue policy"))
        .label("no queue policy")
        .note("an input is a bounded mailbox: write `on ".to_owned().concat(name).concat("(").concat(bound).concat(": …) [capacity: …, overflow: …]`, or drop the type and let an `input ").concat(name).concat("` member declare it").as_str())
}

pub fn on_needs_type(span: Span, name: &str, bound: &str, queue: Span) -> (d: Diagnostic)
    ensures
        d@ == reports::on_needs_type(span, name@, bound@, queue),
{
    proof {
        reveal(reports::on_needs_type);
    }
    Diagnostic::new(span, "`".to_owned().concat(name).concat("` is declared here, so `").concat(bound).concat("` needs the message type"))
        .label("no type on the message")
        .secondary(queue, "this queue clause declares the input")
        .note("write `on ".to_owned().concat(name).concat("(").concat(bound).concat(": …) [capacity: …, overflow: …]`, or drop the clause and let an `input ").concat(name).concat("` member declare it").as_str())
}

pub fn no_such_input(span: Span, reactor: &str, name: &str) -> (d: Diagnostic)
    ensures
        d@ == reports::no_such_input(span, reactor@, name@),
{
    proof {
        reveal(reports::no_such_input);
    }
    Diagnostic::new(span, "`".to_owned().concat(reactor).concat("` has no input `").concat(name).concat("`"))
        .label("nothing would send this")
}

pub fn second_handler(span: Span, name: &str, input: Span) -> (d: Diagnostic)
    ensures
        d@ == reports::second_handler(span, name@, input),
{
    proof {
        reveal(reports::second_handler);
    }
    Diagnostic::new(span, "`".to_owned().concat(name).concat("` already has a handler"))
        .label("second `on` for one input")
        .secondary(input, "the input")
        .note("one input is one handler: two would need an order between them, and a turn has none")
}

pub fn no_handler(span: Span, name: &str) -> (d: Diagnostic)
    ensures
        d@ == reports::no_handler(span, name@),
{
    proof {
        reveal(reports::no_handler);
    }
    Diagnostic::new(span, "`".to_owned().concat(name).concat("` has no `on ").concat(name).concat("` handler"))
        .label("nothing responds to this")
        .note("an input is how a message reaches state; with no handler it can only be dropped")
}

pub fn init_reads(span: Span, sort: &str, name: &str) -> (d: Diagnostic)
    ensures
        d@ == reports::init_reads(span, sort@, name@),
{
    proof {
        reveal(reports::init_reads);
    }
    Diagnostic::new(span, "a `state` initialiser cannot read the ".to_owned().concat(sort).concat(" `").concat(name).concat("`"))
        .label("initialisers run before the first turn")
        .note("read a constructor parameter instead, or derive the value with a signal")
}

pub fn init_calls(span: Span, sort: &str, name: &str) -> (d: Diagnostic)
    ensures
        d@ == reports::init_calls(span, sort@, name@),
{
    proof {
        reveal(reports::init_calls);
    }
    Diagnostic::new(span, "a `state` initialiser cannot call the ".to_owned().concat(sort).concat(" `").concat(name).concat("`"))
        .label("initialisers run before the first turn")
        .note("read a constructor parameter instead, or derive the value with a signal")
}

pub fn carries_no_message(span: Span, input: &str) -> (d: Diagnostic)
    ensures
        d@ == reports::carries_no_message(span, input@),
{
    proof {
        reveal(reports::carries_no_message);
    }
    Diagnostic::new(span, "`".to_owned().concat(input).concat("` carries no message, so `on ").concat(input).concat("()` binds nothing"))
        .label("declared as `()`")
}

pub fn binds_one_message(span: Span, input: &str, found: &str, ty: &str) -> (d: Diagnostic)
    ensures
        d@ == reports::binds_one_message(span, input@, found@, ty@),
{
    proof {
        reveal(reports::binds_one_message);
    }
    Diagnostic::new(span, "`on ".to_owned().concat(input).concat("` binds the message it was sent, so it takes one name, not ").concat(found))
        .note("write `on ".to_owned().concat(input).concat("(message)`, where `message` is the ").concat(ty).concat(" it was sent").as_str())
}

pub fn reactor_holds(span: Span, what: &str, spelled: &str, name: &str) -> (d: Diagnostic)
    ensures
        d@ == reports::reactor_holds(span, what@, spelled@, name@),
{
    proof {
        reveal(reports::reactor_holds);
    }
    Diagnostic::new(span, "a reactor's ".to_owned().concat(what).concat(" cannot hold a `").concat(spelled).concat("`"))
        .label("`".to_owned().concat(name).concat("` would own something the graph cannot close").as_str())
        .note("a reactor's state is a value that could be written down and restored, and an open descriptor is not")
        .note("count what a task owns and send the reactor the count: see `examples/reactors/server.norn`")
}

pub fn causality_cycle(span: Span, path: &str, label: &str) -> (d: Diagnostic)
    ensures
        d@ == reports::causality_cycle(span, path@, label@),
{
    proof {
        reveal(reports::causality_cycle);
    }
    Diagnostic::new(span, "instantaneous causality cycle ".to_owned().concat(path))
        .label(label.to_owned().as_str())
}

pub fn capacity_positive(span: Span) -> (d: Diagnostic)
    ensures
        d@ == reports::capacity_positive(span),
{
    proof {
        reveal(reports::capacity_positive);
    }
    Diagnostic::fixed(span, "a capacity must be positive")
        .label("nothing could ever be queued")
        .note("a mailbox that holds nothing is an input nothing can reach")
}

pub fn capacity_literal(span: Span) -> (d: Diagnostic)
    ensures
        d@ == reports::capacity_literal(span),
{
    proof {
        reveal(reports::capacity_literal);
    }
    Diagnostic::fixed(span, "a capacity must be an integer literal")
        .label("not a literal")
        .note("the bound is part of the reactor's shape, so it is known before anything runs")
}

pub fn unknown_overflow(span: Span, name: &str, known: &str) -> (d: Diagnostic)
    ensures
        d@ == reports::unknown_overflow(span, name@, known@),
{
    proof {
        reveal(reports::unknown_overflow);
    }
    Diagnostic::new(span, "unknown overflow policy `".to_owned().concat(name).concat("`"))
        .label("not a policy v0 knows")
        .note("the vocabulary is fixed: ".to_owned().concat(known).as_str())
}

} // verus!
