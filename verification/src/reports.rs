//! What each diagnostic says, as text.

use vstd::prelude::*;
use crate::span::{Report, Span};

verus! {

#[verifier::opaque]
pub open spec fn bare_specifier(span: Span, specifier: Seq<char>) -> Report {
    Report::new(span, "`"@ + specifier + "` does not name a module"@)
        .label("not `std/…` or a relative path"@)
        .note("a module is the standard library's (`std/fmt`) or a file named by where it is (`./fmt`, `../util/strings`); packages will take this shape, but do not exist yet"@)
}

#[verifier::opaque]
pub open spec fn extension_written(span: Span, trimmed: Seq<char>) -> Report {
    Report::new(span, "the `.norn` extension is implied"@)
        .label("spelled out here"@)
        .note("write `\""@ + trimmed + "\"`; the file it names is still `"@ + trimmed + ".norn`"@)
}

#[verifier::opaque]
pub open spec fn imports_itself(span: Span) -> Report {
    Report::new(span, "a file cannot import itself"@)
        .label("this is the importing file"@)
}

#[verifier::opaque]
pub open spec fn no_std_module(span: Span, specifier: Seq<char>, catalogue: Seq<char>) -> Report {
    Report::new(span, "no module `"@ + specifier + "` in the standard library"@)
        .note("the standard library provides "@ + catalogue)
}

#[verifier::opaque]
pub open spec fn no_module(span: Span, specifier: Seq<char>, key: Seq<char>) -> Report {
    Report::new(span, "cannot find module `"@ + specifier + "`"@)
        .note("expected a module at `"@ + key + "`"@)
}

#[verifier::opaque]
pub open spec fn namespace_taken(span: Span, name: Seq<char>, what: Seq<char>) -> Report {
    Report::new(span, "the imported name `"@ + name + "` is already taken"@)
        .label(what)
        .note("pick another name after `as`"@)
}

#[verifier::opaque]
pub open spec fn import_undefined(
    span: Span,
    name: Seq<char>,
    specifier: Seq<char>,
    file: Seq<char>,
) -> Report {
    Report::new(span, "`"@ + name + "` is not defined in `"@ + specifier + "`"@)
        .label("unknown name"@)
        .note(file + " declares no `"@ + name + "`"@)
}

#[verifier::opaque]
pub open spec fn import_taken(
    span: Span,
    name: Seq<char>,
    what: Seq<char>,
    source: Seq<char>,
) -> Report {
    Report::new(span, "the imported name `"@ + name + "` is already taken"@)
        .label(what)
        .note("rename the import with `as`, as in `"@ + source + " as other`"@)
}

#[verifier::opaque]
pub open spec fn trait_not_value_or_type(span: Span, text: Seq<char>) -> Report {
    Report::new(span, "`"@ + text + "` is a trait"@)
        .label("not a value or a type"@)
        .note("a trait names behaviour: implement it with `impl`, and reach its methods on a value"@)
}

#[verifier::opaque]
pub open spec fn not_exported(
    span: Span,
    name: Seq<char>,
    shown: Seq<char>,
    kind: Seq<char>,
    file: Seq<char>,
) -> Report {
    Report::new(span, "`"@ + name + "` is not exported by `"@ + shown + "`"@)
        .label("private to its file"@)
        .note("the "@ + kind + " is declared in "@ + file + "; write `export` before it to make it public"@)
}

#[verifier::opaque]
pub open spec fn declared_twice(span: Span, name: Seq<char>, what: Seq<char>) -> Report {
    Report::new(span, "`"@ + name + "` is declared twice"@)
        .label(what)
}

#[verifier::opaque]
pub open spec fn self_type_param(span: Span) -> Report {
    Report::new(span, "`Self` cannot be a type parameter"@)
        .label("a reserved name"@)
        .note("`Self` always names the implementing type of a `trait` or `impl`"@)
}

#[verifier::opaque]
pub open spec fn type_param_twice(span: Span, name: Seq<char>) -> Report {
    Report::new(span, "type parameter `"@ + name + "` is declared twice"@)
        .label("duplicate parameter"@)
}

#[verifier::opaque]
pub open spec fn bound_refused(span: Span, name: Seq<char>) -> Report {
    Report::new(span, "`"@ + name + "` cannot declare a bound here"@)
        .label("bounds live on functions"@)
        .note("a type holds values of any shape; the function that operates on them is where `T: Eq` belongs"@)
}

#[verifier::opaque]
pub open spec fn field_twice(span: Span, name: Seq<char>) -> Report {
    Report::new(span, "field `"@ + name + "` is declared twice"@)
}

#[verifier::opaque]
pub open spec fn builtin_fn_redefined(span: Span, name: Seq<char>) -> Report {
    Report::new(span, "`"@ + name + "` is a built-in function"@)
        .label("cannot be redefined"@)
}

#[verifier::opaque]
pub open spec fn builtin_ctor_redefined(span: Span, name: Seq<char>) -> Report {
    Report::new(span, "`"@ + name + "` is a built-in constructor"@)
        .label("cannot be redefined"@)
        .note("`None`, `Some`, `Ok`, and `Err` always name the Option and Result constructors"@)
}

#[verifier::opaque]
pub open spec fn fn_clashes(span: Span, name: Seq<char>, what: Seq<char>) -> Report {
    Report::new(span, "`"@ + name + "` is already the name of a "@ + what)
        .label("a call must be unambiguous"@)
        .note("`"@ + name + "(…)` has to mean one thing, and the "@ + what + " `"@ + name + "` already claims it"@)
}

#[verifier::opaque]
pub open spec fn generic_main(span: Span) -> Report {
    Report::new(span, "`main` cannot be generic"@)
        .label("the entry point"@)
        .note("the runtime calls `main` directly and has no type arguments to supply"@)
}

#[verifier::opaque]
pub open spec fn unknown_capability(span: Span, name: Seq<char>, known: Seq<char>) -> Report {
    Report::new(span, "unknown capability `"@ + name + "`"@)
        .label("not a capability v0 knows"@)
        .note("the vocabulary is fixed: "@ + known)
}

#[verifier::opaque]
pub open spec fn uses_on_plain_fn(span: Span) -> Report {
    Report::new(span, "capabilities are only meaningful on a `task fn`"@)
}

#[verifier::opaque]
pub open spec fn exclusive_borrow(span: Span) -> Report {
    Report::new(span, "`&mut` has no meaning yet"@)
        .label("exclusive borrows arrive with mutation through references"@)
        .note("v0 borrows only to read: `&T` lets a call look at a value without taking it"@)
        .note("to change something, take it by value and return it, or hold it in a reactor's `state`"@)
}

#[verifier::opaque]
pub open spec fn reference_here(span: Span) -> Report {
    Report::new(span, "a reference cannot be written here"@)
        .label("`&` is only a parameter type"@)
        .note("a borrow lasts for the call it is passed to, so there is nowhere else it could be kept"@)
        .note("to hold the value, name it by its own type and take ownership of it"@)
}

#[verifier::opaque]
pub open spec fn no_type_args(span: Span, name: Seq<char>) -> Report {
    Report::new(span, "`"@ + name + "` takes no type arguments"@)
        .note("user-defined generics arrive after M6; see BOOTSTRAP.md §8"@)
}

#[verifier::opaque]
pub open spec fn fn_not_type(span: Span, text: Seq<char>) -> Report {
    Report::new(span, "`"@ + text + "` is a function, not a type"@)
}

#[verifier::opaque]
pub open spec fn unknown_type(span: Span, name: Seq<char>) -> Report {
    Report::new(span, "unknown type `"@ + name + "`"@)
}

#[verifier::opaque]
pub open spec fn only_byte_flows(span: Span) -> Report {
    Report::new(span, "the only flow in v0 is `Flow<Bytes>`"@)
        .note("flows of other element types arrive with typed layout; see BOOTSTRAP.md §8"@)
}

#[verifier::opaque]
pub open spec fn unwritable_type(span: Span, name: Seq<char>, lives: Seq<char>) -> Report {
    Report::new(span, "`"@ + name + "` is not a type that can be written"@)
        .label(lives + " lives inside a reactor"@)
        .note("declare it as a member — `signal open = …` — and annotate the element type, as in `signal open: I64 = …`"@)
        .note("outside its reactor it is reached through an `export`, and read with `latest`"@)
}

#[verifier::opaque]
pub open spec fn type_arg_count(
    span: Span,
    name: Seq<char>,
    want: Seq<char>,
    plural: Seq<char>,
    found: Seq<char>,
    teach: Seq<char>,
) -> Report {
    Report::new(span, "`"@ + name + "` takes "@ + want + " type "@ + plural + ", found "@ + found)
        .note(teach)
}

#[verifier::opaque]
pub open spec fn template_arity(
    span: Span,
    name: Seq<char>,
    want: Seq<char>,
    plural: Seq<char>,
    found: Seq<char>,
) -> Report {
    Report::new(span, "`"@ + name + "` takes "@ + want + " type "@ + plural + ", found "@ + found)
        .note("write one type for each parameter it declares"@)
}

#[verifier::opaque]
pub open spec fn no_self_here(span: Span) -> Report {
    Report::new(span, "`Self` has no meaning here"@)
        .note("`Self` always names the implementing type of a `trait` or `impl`"@)
}

#[verifier::opaque]
pub open spec fn borrow_named(span: Span, name: Seq<char>) -> Report {
    Report::new(span, "`"@ + name + "` would be a borrow"@)
        .label("a borrow cannot be given a name"@)
        .note("`&` lasts for the call it is handed to, and a name outlives that"@)
        .note("pass it where it is needed — `f(&conn)` — or bind the value itself and take ownership of it"@)
}

#[verifier::opaque]
pub open spec fn ctor_bound(span: Span, name: Seq<char>) -> Report {
    Report::new(span, "`"@ + name + "` cannot be a binding"@)
        .label("a built-in constructor"@)
        .note("`None`, `Some`, `Ok`, and `Err` always name the Option and Result constructors"@)
}

#[verifier::opaque]
pub open spec fn mismatch(span: Span, expected: Seq<char>, found: Seq<char>) -> Report {
    Report::new(span, "expected "@ + expected + ", found "@ + found)
}

#[verifier::opaque]
pub open spec fn lambda(span: Span) -> Report {
    Report::new(span, "functions are not values yet"@)
        .label("lambda"@)
        .note("nothing in v0 needs one: the reactor surface is `input`, `state`, `signal`, and `on`, and closures arrive with the dynamic subgraphs of M7"@)
}

#[verifier::opaque]
pub open spec fn borrowed_task_arg(
    span: Span,
    what: Seq<char>,
    when: Seq<char>,
    name: Seq<char>,
) -> Report {
    Report::new(span, "`"@ + what + "` cannot be handed a borrow"@)
        .label("this is borrowed, and the task "@ + when)
        .note("the work is built here and started later, so it has to own its "@ + name)
        .note("drop the `&` to move the value in; `await f(&x)` is the form that may borrow, because the task is finished by the time that line is"@)
}

#[verifier::opaque]
pub open spec fn borrows_not_takes(span: Span, name: Seq<char>) -> Report {
    Report::new(span, "this borrows the "@ + name + " rather than taking it"@)
        .label("write `&` here"@)
        .note("the call only looks at it, so the value stays yours afterwards"@)
}

#[verifier::opaque]
pub open spec fn takes_not_borrows(span: Span, name: Seq<char>) -> Report {
    Report::new(span, "this takes the "@ + name)
        .label("drop the `&`"@)
        .note("ownership moves into the call, and the value cannot be used here again"@)
}

#[verifier::opaque]
pub open spec fn only_task_fns(span: Span, fn_name: Seq<char>, what: Seq<char>) -> Report {
    Report::new(span, "only a `task fn` can create a task, and `"@ + fn_name + "` is not one"@)
        .label("`"@ + what + "` builds a task"@)
        .note("mark the enclosing function `task fn`"@)
}

#[verifier::opaque]
pub open spec fn undeclared_capability(
    span: Span,
    fn_name: Seq<char>,
    capability: Seq<char>,
    what: Seq<char>,
    all: Seq<char>,
) -> Report {
    Report::new(span, "`"@ + fn_name + "` does not declare the capability `"@ + capability + "`"@)
        .label("`"@ + what + "` uses it"@)
        .note("a task's `uses { … }` set must cover every task it creates"@)
        .note("add it: `uses { "@ + all + " }`"@)
}

#[verifier::opaque]
pub open spec fn discarded_task(span: Span) -> Report {
    Report::new(span, "this builds a task and then discards it"@)
        .label("the task never runs"@)
        .note("`await` it to run it here, or `spawn` it to run it alongside"@)
}

#[verifier::opaque]
pub open spec fn await_outside(span: Span) -> Report {
    Report::new(span, "`await` is only available inside a `task fn`"@)
        .label("only a task may suspend"@)
        .note("mark the enclosing function `task fn`"@)
}

#[verifier::opaque]
pub open spec fn await_not_task(span: Span, name: Seq<char>) -> Report {
    Report::new(span, "`await` applies to a task, not "@ + name)
        .label("not a task"@)
        .note("a task comes from calling a `task fn`, and nothing else in v0"@)
}

#[verifier::opaque]
pub open spec fn scope_outside(span: Span) -> Report {
    Report::new(span, "a `scope` is only available inside a `task fn`"@)
        .label("only a task may start other tasks"@)
        .note("mark the enclosing function `task fn`"@)
}

#[verifier::opaque]
pub open spec fn spawn_outside(span: Span) -> Report {
    Report::new(span, "`spawn` is only available inside a `task fn`"@)
        .label("only a task may start other tasks"@)
        .note("mark the enclosing function `task fn`"@)
}

#[verifier::opaque]
pub open spec fn spawn_produces(span: Span, name: Seq<char>) -> Report {
    Report::new(span, "`spawn` needs a task that produces (), and this one produces "@ + name)
        .label("nothing would receive the value"@)
        .note("there are no task handles in v0, so a spawned task has to say what happens to its own result"@)
}

#[verifier::opaque]
pub open spec fn spawn_not_task(span: Span, name: Seq<char>) -> Report {
    Report::new(span, "`spawn` applies to a task, not "@ + name)
        .label("not a task"@)
}

#[verifier::opaque]
pub open spec fn namespace_not_value(span: Span, name: Seq<char>) -> Report {
    Report::new(span, "`"@ + name + "` is a module namespace, not a value"@)
        .label("names a file"@)
        .note("reach what it exports through it, as in `"@ + name + ".name`"@)
}

#[verifier::opaque]
pub open spec fn fn_not_value(span: Span, name: Seq<char>) -> Report {
    Report::new(span, "functions are not values yet"@)
        .label("`"@ + name + "` can only be called"@)
        .note("first-class functions arrive with closures in M7"@)
}

#[verifier::opaque]
pub open spec fn struct_not_value(span: Span, text: Seq<char>) -> Report {
    Report::new(span, "`"@ + text + "` is a struct, not a value"@)
        .note("construct one, as in `"@ + text + "(…)`"@)
}

#[verifier::opaque]
pub open spec fn reactor_not_value(span: Span, text: Seq<char>) -> Report {
    Report::new(span, "`"@ + text + "` is a reactor, not a value"@)
        .note("create one with `spawn reactor "@ + text + "(…)`"@)
}

#[verifier::opaque]
pub open spec fn trait_not_value(span: Span, name: Seq<char>) -> Report {
    Report::new(span, "`"@ + name + "` is a trait, not a value"@)
        .note("a trait names behaviour: implement it with `impl`, and reach its methods on a value"@)
}

#[verifier::opaque]
pub open spec fn unknown_name(span: Span, name: Seq<char>) -> Report {
    Report::new(span, "unknown name `"@ + name + "`"@)
}

#[verifier::opaque]
pub open spec fn names_an_enum(span: Span, text: Seq<char>, example: Seq<char>) -> Report {
    Report::new(span, "`"@ + text + "` is an enum"@)
        .note("name the variant, as in `"@ + text + "."@ + example + "`"@)
}

#[verifier::opaque]
pub open spec fn no_variant(span: Span, name: Seq<char>, variant: Seq<char>) -> Report {
    Report::new(span, "`"@ + name + "` has no variant `"@ + variant + "`"@)
        .label("unknown variant"@)
}

#[verifier::opaque]
pub open spec fn carries_payload(
    span: Span,
    name: Seq<char>,
    variant: Seq<char>,
    fields: Seq<char>,
) -> Report {
    Report::new(span, "`"@ + name + "."@ + variant + "` carries a payload"@)
        .label("not a unit variant"@)
        .note("construct it with its fields, as in `"@ + name + "."@ + variant + "("@ + fields + ")`"@)
}

#[verifier::opaque]
pub open spec fn signal_assigned(span: Span, name: Seq<char>) -> Report {
    Report::new(span, "`"@ + name + "` is a signal, and a signal is never assigned"@)
        .label("derived, not stored"@)
        .note("a signal *is* its expression; two definitions of one value is what assigning to it would mean"@)
        .note("to make it settable, declare it as `state` and assign it here instead"@)
}

#[verifier::opaque]
pub open spec fn signal_read(span: Span, name: Seq<char>, call: Seq<char>) -> Report {
    Report::new(span, "an `on` handler cannot read the signal `"@ + name + "`"@)
        .label("signals are recomputed after the handler runs"@)
        .note("reading it here would mean the previous turn's value, which is never what was meant"@)
        .note("call it with the values you mean: `"@ + call + "`"@)
}

#[verifier::opaque]
pub open spec fn input_read(span: Span, name: Seq<char>) -> Report {
    Report::new(span, "`"@ + name + "` is an input, not a value"@)
        .label("an input is a mailbox"@)
        .note("respond to it with `on {name}(…) {{ … }}`; a node body cannot read one"@)
}

#[verifier::opaque]
pub open spec fn member_out_of_scope(span: Span, name: Seq<char>, sort: Seq<char>) -> Report {
    Report::new(span, "`"@ + name + "` is not in scope here"@)
        .label("a reactor "@ + sort)
}

#[verifier::opaque]
pub open spec fn member_private(span: Span, reactor: Seq<char>, name: Seq<char>) -> Report {
    Report::new(span, "`"@ + reactor + "` has no input or exported signal `"@ + name + "`"@)
        .label("declared, but not exported"@)
        .note("write `export signal "@ + name + "` to make it readable from outside"@)
}

#[verifier::opaque]
pub open spec fn member_unknown(span: Span, reactor: Seq<char>, name: Seq<char>) -> Report {
    Report::new(span, "`"@ + reactor + "` has no input or exported signal `"@ + name + "`"@)
        .label("unknown member"@)
}

#[verifier::opaque]
pub open spec fn no_fields(span: Span, ty: Seq<char>, name: Seq<char>) -> Report {
    Report::new(span, ty + " has no fields"@)
        .label("`"@ + name + "` accessed here"@)
}

#[verifier::opaque]
pub open spec fn no_field(span: Span, strukt: Seq<char>, name: Seq<char>) -> Report {
    Report::new(span, "`"@ + strukt + "` has no field `"@ + name + "`"@)
        .label("unknown field"@)
}

#[verifier::opaque]
pub open spec fn not_indexable(span: Span, name: Seq<char>) -> Report {
    Report::new(span, "only `Bytes` can be indexed in v0, not "@ + name)
        .note("collections and their indexing arrive with the standard library"@)
}

#[verifier::opaque]
pub open spec fn op_does_not_apply(span: Span, op: Seq<char>, name: Seq<char>) -> Report {
    Report::new(span, "`"@ + op + "` does not apply to "@ + name)
}

#[verifier::opaque]
pub open spec fn equality_does_not_apply(span: Span, op: Seq<char>, name: Seq<char>) -> Report {
    Report::new(span, "`"@ + op + "` does not apply to "@ + name)
        .note("structural equality on structs and enums is not derived yet; match instead"@)
}

#[verifier::opaque]
pub open spec fn after_outside(span: Span) -> Report {
    Report::new(span, "`after` is only available inside an `on` handler"@)
        .label("nothing here commits"@)
        .note("a signal derives a value and requests nothing; effects are asked for where state changes"@)
}

#[verifier::opaque]
pub open spec fn after_not_task(span: Span, name: Seq<char>) -> Report {
    Report::new(span, "`after` describes work to start later, and this is "@ + name)
        .label("not a task"@)
        .note("call a `task fn`: the call builds the work without running it, which is what lets the snapshot be published first"@)
}

#[verifier::opaque]
pub open spec fn effect_dropped(span: Span, name: Seq<char>) -> Report {
    Report::new(span, "this effect produces "@ + name + ", and nothing would receive it"@)
        .label("the value is dropped"@)
        .note("name the input it comes back on: `after … -> handled`"@)
}

#[verifier::opaque]
pub open spec fn effect_no_input(span: Span, reactor: Seq<char>, name: Seq<char>) -> Report {
    Report::new(span, "`"@ + reactor + "` has no input `"@ + name + "`"@)
        .label("unknown input"@)
        .note("an effect's result comes back as a message, so it needs an input to arrive on"@)
}

#[verifier::opaque]
pub open spec fn effect_does_not_fit(
    span: Span,
    produced: Seq<char>,
    name: Seq<char>,
    wanted: Seq<char>,
) -> Report {
    Report::new(span, "this effect produces "@ + produced + ", but `"@ + name + "` takes "@ + wanted)
        .label("the result would not fit"@)
}

#[verifier::opaque]
pub open spec fn assign_signal(span: Span, name: Seq<char>) -> Report {
    Report::new(span, "`"@ + name + "` is a signal, and a signal is never assigned"@)
        .label("derived, not stored"@)
        .note("a signal *is* its expression; to make it settable, declare it as `state` and assign it in a handler"@)
}

#[verifier::opaque]
pub open spec fn assign_param(span: Span, name: Seq<char>) -> Report {
    Report::new(span, "`"@ + name + "` is a reactor parameter"@)
        .label("fixed when the reactor was created"@)
        .note("declare a `state` cell initialised from it if it needs to change"@)
}

#[verifier::opaque]
pub open spec fn assign_state(span: Span, name: Seq<char>) -> Report {
    Report::new(span, "`"@ + name + "` can only be assigned inside an `on` handler"@)
        .label("a node body is pure"@)
        .note("state changes are what a handler is for; a signal derives from state rather than setting it"@)
}

#[verifier::opaque]
pub open spec fn assign_message(span: Span, name: Seq<char>) -> Report {
    Report::new(span, "`"@ + name + "` is the message this handler was given"@)
        .label("cannot assign"@)
}

#[verifier::opaque]
pub open spec fn assign_immutable(span: Span, name: Seq<char>) -> Report {
    Report::new(span, "`"@ + name + "` is not declared `mut`"@)
        .label("cannot assign"@)
        .note("declare it as `let mut "@ + name + " = …`"@)
}

#[verifier::opaque]
pub open spec fn assign_through_shared(span: Span) -> Report {
    Report::new(span, "cannot assign through a shared value"@)
        .label("shared values are immutable"@)
        .note("`unshare` it, change the copy, and `shared` the result"@)
}

#[verifier::opaque]
pub open spec fn assign_not_place(span: Span) -> Report {
    Report::new(span, "only a variable or one of its fields can be assigned"@)
}

#[verifier::opaque]
pub open spec fn if_without_else(span: Span, name: Seq<char>) -> Report {
    Report::new(span, "an `if` without an `else` must produce (), found "@ + name)
}

#[verifier::opaque]
pub open spec fn while_is_unit(span: Span, name: Seq<char>) -> Report {
    Report::new(span, "expected "@ + name + ", found ()"@)
        .note("a `while` produces `()`; `loop` with `break value` is how a loop yields one"@)
}

#[verifier::opaque]
pub open spec fn break_outside(span: Span) -> Report {
    Report::new(span, "`break` is only available inside a loop"@)
        .label("there is no loop to leave"@)
}

#[verifier::opaque]
pub open spec fn break_value_in_while(span: Span) -> Report {
    Report::new(span, "`break` can only carry a value out of a `loop`"@)
        .label("this `while` produces ()"@)
}

#[verifier::opaque]
pub open spec fn break_needs_value(span: Span, result: Seq<char>) -> Report {
    Report::new(span, "`break` needs a value here"@)
        .label("this leaves the loop with nothing, and the loop produces "@ + result)
}

#[verifier::opaque]
pub open spec fn continue_outside(span: Span) -> Report {
    Report::new(span, "`continue` is only available inside a loop"@)
        .label("there is no loop to continue"@)
}

#[verifier::opaque]
pub open spec fn empty_match(span: Span) -> Report {
    Report::new(span, "a `match` needs at least one arm"@)
}

#[verifier::opaque]
pub open spec fn needs_catch_all(span: Span, name: Seq<char>) -> Report {
    Report::new(span, "this `match` on "@ + name + " needs a catch-all arm"@)
        .note("add `_ => …`"@)
}

#[verifier::opaque]
pub open spec fn not_exhaustive(span: Span, missing: Seq<char>) -> Report {
    Report::new(span, "this `match` does not cover "@ + missing)
        .label("not exhaustive"@)
        .note("add the missing arms, or a `_ => …` catch-all"@)
}

#[verifier::opaque]
pub open spec fn fails_differently(span: Span, err: Seq<char>, ret: Seq<char>) -> Report {
    Report::new(span, "this fails with "@ + err + ", but the function fails with "@ + ret)
        .note("there is no automatic error conversion; match and rebuild the error"@)
}

#[verifier::opaque]
pub open spec fn cannot_propagate(span: Span, ret: Seq<char>) -> Report {
    Report::new(span, "`?` needs the function to return the same shape, but it returns "@ + ret)
        .label("cannot propagate here"@)
}

#[verifier::opaque]
pub open spec fn try_not_applicable(span: Span, name: Seq<char>) -> Report {
    Report::new(span, "`?` applies to Result and Option, not "@ + name)
}

#[verifier::opaque]
pub open spec fn alternatives_bind(span: Span) -> Report {
    Report::new(span, "an alternative pattern may not bind names yet"@)
        .note("each alternative would have to bind the same names; write separate arms"@)
}

#[verifier::opaque]
pub open spec fn pattern_mismatch(span: Span, found: Seq<char>, expected: Seq<char>) -> Report {
    Report::new(span, "this pattern matches "@ + found + ", but the value is "@ + expected)
}

#[verifier::opaque]
pub open spec fn unknown_struct(span: Span, name: Seq<char>) -> Report {
    Report::new(span, "unknown struct `"@ + name + "`"@)
}

#[verifier::opaque]
pub open spec fn unknown_enum(span: Span, name: Seq<char>) -> Report {
    Report::new(span, "unknown enum `"@ + name + "`"@)
}

#[verifier::opaque]
pub open spec fn unknown_ctor(span: Span, text: Seq<char>) -> Report {
    Report::new(span, "unknown constructor `"@ + text + "`"@)
}

#[verifier::opaque]
pub open spec fn builtin_pat_mismatch(span: Span, name: Seq<char>, ty: Seq<char>) -> Report {
    Report::new(span, "`"@ + name + "` matches Option or Result, but the value is "@ + ty)
}

#[verifier::opaque]
pub open spec fn mixed_pat_args(span: Span) -> Report {
    Report::new(span, "pattern arguments are either all named or all positional"@)
}

#[verifier::opaque]
pub open spec fn too_many_pat_args(
    span: Span,
    subject: Seq<char>,
    want: Seq<char>,
    s: Seq<char>,
    found: Seq<char>,
) -> Report {
    Report::new(span, "`"@ + subject + "` has "@ + want + " field"@ + s + ", found "@ + found)
}

#[verifier::opaque]
pub open spec fn too_few_pat_args(
    span: Span,
    subject: Seq<char>,
    want: Seq<char>,
    s: Seq<char>,
    found: Seq<char>,
) -> Report {
    Report::new(span, "`"@ + subject + "` has "@ + want + " field"@ + s + ", found "@ + found)
        .note("write `..` to ignore the rest"@)
}

#[verifier::opaque]
pub open spec fn no_pat_field(span: Span, subject: Seq<char>, name: Seq<char>) -> Report {
    Report::new(span, "`"@ + subject + "` has no field named `"@ + name + "`"@)
        .label("unknown field"@)
}

#[verifier::opaque]
pub open spec fn matched_twice(span: Span, name: Seq<char>) -> Report {
    Report::new(span, "`"@ + name + "` is matched twice"@)
}

#[verifier::opaque]
pub open spec fn missing_pat_fields(span: Span, missing: Seq<char>) -> Report {
    Report::new(span, "missing fields: "@ + missing)
        .note("write `..` to ignore the rest"@)
}

#[verifier::opaque]
pub open spec fn not_callable(span: Span) -> Report {
    Report::new(span, "only a named function or a method can be called"@)
        .note("function values arrive with M7; nothing else produces something callable"@)
}

#[verifier::opaque]
pub open spec fn ctor_type_args(span: Span, name: Seq<char>) -> Report {
    Report::new(span, "`"@ + name + "` takes no type arguments"@)
        .note("its payload type comes from the expectation; annotate the binding instead"@)
}

#[verifier::opaque]
pub open spec fn builtin_type_args(span: Span, name: Seq<char>) -> Report {
    Report::new(span, "`"@ + name + "` takes no type arguments"@)
        .note("builtins are typed by what they are handed, never by arguments"@)
}

#[verifier::opaque]
pub open spec fn unknown_function(span: Span, name: Seq<char>) -> Report {
    Report::new(span, "unknown function `"@ + name + "`"@)
}

#[verifier::opaque]
pub open spec fn param_not_ctor(span: Span, name: Seq<char>, fn_name: Seq<char>) -> Report {
    Report::new(span, "`"@ + name + "` is a type parameter, not a constructor"@)
        .label("a bare parameter cannot be built"@)
        .note("`"@ + name + "` is opaque inside `"@ + fn_name + "`: without a bound it can only be moved, stored, matched by binding, or passed on"@)
}

#[verifier::opaque]
pub open spec fn reactor_not_fn(span: Span, name: Seq<char>) -> Report {
    Report::new(span, "`"@ + name + "` is a reactor"@)
        .label("not a function"@)
        .note("create one with `spawn reactor "@ + name + "(…)`"@)
}

#[verifier::opaque]
pub open spec fn trait_not_fn(span: Span, name: Seq<char>) -> Report {
    Report::new(span, "`"@ + name + "` is a trait"@)
        .label("not a function"@)
        .note("implement it with `impl "@ + name + " for …`; its methods are reached on a value"@)
}

#[verifier::opaque]
pub open spec fn state_not_fn(span: Span, name: Seq<char>) -> Report {
    Report::new(span, "`"@ + name + "` is a state cell, not a function"@)
        .label("state holds a value; it does not derive one"@)
        .note("only a signal has a body to call"@)
}

#[verifier::opaque]
pub open spec fn reactor_param_not_fn(span: Span, name: Seq<char>) -> Report {
    Report::new(span, "`"@ + name + "` is a reactor parameter, not a function"@)
        .label("a parameter holds a value; it does not derive one"@)
        .note("only a signal has a body to call"@)
}

#[verifier::opaque]
pub open spec fn input_not_fn(span: Span, name: Seq<char>) -> Report {
    Report::new(span, "`"@ + name + "` is an input, not a function"@)
        .label("an input is a mailbox"@)
        .note("respond to it with `on "@ + name + "(…) { … }`"@)
}

#[verifier::opaque]
pub open spec fn builtin_arity(
    span: Span,
    name: Seq<char>,
    want: Seq<char>,
    s: Seq<char>,
) -> Report {
    Report::new(span, "`"@ + name + "` takes "@ + want + " positional argument"@ + s)
}

#[verifier::opaque]
pub open spec fn send_not_input(span: Span, name: Seq<char>) -> Report {
    Report::new(span, "`send` needs an input of a reactor, not "@ + name)
        .label("not an input"@)
        .note("name one on a handle, as in `send(gate.opened, ())`"@)
}

#[verifier::opaque]
pub open spec fn latest_not_signal(span: Span, name: Seq<char>) -> Report {
    Report::new(span, "`latest` needs an exported signal, not "@ + name)
        .label("not a signal"@)
        .note("name one on a handle, as in `latest(gate.snapshot)`"@)
}

#[verifier::opaque]
pub open spec fn spawn_reactor_outside(span: Span) -> Report {
    Report::new(span, "`spawn reactor` is only available inside a `task fn`"@)
        .label("only a task may own a reactor"@)
        .note("mark the enclosing function `task fn`"@)
}

#[verifier::opaque]
pub open spec fn spawn_reactor_unscoped(span: Span) -> Report {
    Report::new(span, "`spawn reactor` must appear inside a `scope`"@)
        .label("nothing here would cancel it"@)
        .note("wrap it in `scope { … }`: a reactor may not outlive the scope that started it"@)
}

#[verifier::opaque]
pub open spec fn not_a_reactor(span: Span, name: Seq<char>) -> Report {
    Report::new(span, "`"@ + name + "` is not a reactor"@)
        .label("not a reactor"@)
}

#[verifier::opaque]
pub open spec fn unknown_reactor(span: Span, name: Seq<char>) -> Report {
    Report::new(span, "unknown reactor `"@ + name + "`"@)
        .label("not a reactor"@)
}

#[verifier::opaque]
pub open spec fn mixed_args(span: Span) -> Report {
    Report::new(span, "arguments are either all named or all positional"@)
        .note("mixing the two forms would need a precedence rule nobody should have to learn"@)
}

#[verifier::opaque]
pub open spec fn arg_count(
    span: Span,
    subject: Seq<char>,
    want: Seq<char>,
    noun: Seq<char>,
    s: Seq<char>,
    found: Seq<char>,
) -> Report {
    Report::new(span, "`"@ + subject + "` takes "@ + want + " "@ + noun + s + ", found "@ + found)
}

#[verifier::opaque]
pub open spec fn no_such_arg(
    span: Span,
    subject: Seq<char>,
    noun: Seq<char>,
    name: Seq<char>,
) -> Report {
    Report::new(span, "`"@ + subject + "` has no "@ + noun + " named `"@ + name + "`"@)
        .label("unknown "@ + noun)
}

#[verifier::opaque]
pub open spec fn arg_twice(span: Span, name: Seq<char>) -> Report {
    Report::new(span, "`"@ + name + "` is given twice"@)
}

#[verifier::opaque]
pub open spec fn missing_args(
    span: Span,
    noun: Seq<char>,
    s: Seq<char>,
    missing: Seq<char>,
) -> Report {
    Report::new(span, "missing "@ + noun + s + ": "@ + missing)
}

#[verifier::opaque]
pub open spec fn none_takes_nothing(span: Span) -> Report {
    Report::new(span, "`None` takes no arguments"@)
}

#[verifier::opaque]
pub open spec fn takes_one_positional(span: Span, name: Seq<char>) -> Report {
    Report::new(span, "`"@ + name + "` takes one positional argument"@)
}

#[verifier::opaque]
pub open spec fn uninferable(span: Span, what: Seq<char>, example: Seq<char>) -> Report {
    Report::new(span, "cannot tell what type `"@ + what + "` builds here"@)
        .label("no expected type at this position"@)
        .note("annotate the binding or the return type, as in `let x: "@ + example + " = …`"@)
}

#[verifier::opaque]
pub open spec fn generic_trait(span: Span) -> Report {
    Report::new(span, "a trait takes no type parameters yet"@)
        .label("generic traits are not available"@)
        .note("the one type a trait abstracts over is `Self`; traits over more arrive with a later milestone"@)
}

#[verifier::opaque]
pub open spec fn task_member(span: Span, label: Seq<char>) -> Report {
    Report::new(span, "a trait member is a plain `fn` for now"@)
        .label(label)
        .note("task methods and their capability clauses arrive with a later milestone"@)
}

#[verifier::opaque]
pub open spec fn generic_member(
    span: Span,
    name: Seq<char>,
    label: Seq<char>,
    teach: Seq<char>,
) -> Report {
    Report::new(span, "`"@ + name + "` takes no type parameters"@)
        .label(label)
        .note(teach)
}

#[verifier::opaque]
pub open spec fn no_receiver(span: Span, name: Seq<char>) -> Report {
    Report::new(span, "`"@ + name + "`'s first parameter must be `Self`"@)
        .label("no receiver"@)
        .note("the method spelling `value."@ + name + "(…)` passes the receiver as the first argument"@)
        .note("a receiver reads by default; a consuming method declares `sink Self`"@)
}

#[verifier::opaque]
pub open spec fn generic_impl(span: Span) -> Report {
    Report::new(span, "generic impls are not available yet"@)
        .label("type parameters on an `impl`"@)
        .note("write the impl for each concrete type; `impl<T> … for List<T>` arrives with a later milestone"@)
}

#[verifier::opaque]
pub open spec fn eq_by_hand(span: Span) -> Report {
    Report::new(span, "`Eq` cannot be implemented by hand"@)
        .label("compiler-defined"@)
        .note("exactly `I64`, `F64`, `Bool`, `String`, and `Bytes` are `Eq`; derived equality for your own types arrives with BOOTSTRAP.md §8 item 9"@)
}

#[verifier::opaque]
pub open spec fn cannot_implement(span: Span, name: Seq<char>) -> Report {
    Report::new(span, name + " cannot implement a trait"@)
        .label("not a named type"@)
        .note("a trait is implemented for a struct, an enum, or one of `I64`, `F64`, `Bool`, `String`, `Bytes`"@)
}

#[verifier::opaque]
pub open spec fn orphan_builtin(span: Span, trait_name: Seq<char>, receiver: Seq<char>) -> Report {
    Report::new(span, "this impl lives in neither `"@ + trait_name + "`'s module nor `"@ + receiver + "`'s"@)
        .label("an impl travels with its trait or its type"@)
        .note("`"@ + receiver + "` is built in, so only the module that declares `"@ + trait_name + "` may implement it"@)
}

#[verifier::opaque]
pub open spec fn orphan(span: Span, trait_name: Seq<char>, receiver: Seq<char>) -> Report {
    Report::new(span, "this impl lives in neither `"@ + trait_name + "`'s module nor `"@ + receiver + "`'s"@)
        .label("an impl travels with its trait or its type"@)
        .note("move it beside the `trait` declaration or beside the type it implements it for"@)
}

#[verifier::opaque]
pub open spec fn second_impl(
    span: Span,
    trait_name: Seq<char>,
    receiver: Seq<char>,
    place: Seq<char>,
) -> Report {
    Report::new(span, "`"@ + trait_name + "` is already implemented for `"@ + receiver + "`"@)
        .label("second impl"@)
        .note("one impl per trait and type, program-wide; the other is "@ + place)
}

#[verifier::opaque]
pub open spec fn not_in_trait(
    span: Span,
    trait_name: Seq<char>,
    name: Seq<char>,
    roster: Seq<char>,
) -> Report {
    Report::new(span, "`"@ + trait_name + "` has no method `"@ + name + "`"@)
        .label("not in the trait"@)
        .note("an impl provides exactly the trait's methods; `"@ + trait_name + "` declares "@ + roster)
}

#[verifier::opaque]
pub open spec fn signature_conflict(
    span: Span,
    name: Seq<char>,
    trait_name: Seq<char>,
    receiver: Seq<char>,
    shape: Seq<char>,
    ret: Seq<char>,
) -> Report {
    Report::new(span, "the signature of `"@ + name + "` does not match `"@ + trait_name + "`'s"@)
        .label("conflicting signature"@)
        .note("for `"@ + receiver + "`, the trait asks for `fn "@ + name + "("@ + shape + ") -> "@ + ret + "`"@)
}

#[verifier::opaque]
pub open spec fn mode_conflict(span: Span, name: Seq<char>, trait_name: Seq<char>) -> Report {
    Report::new(span, "`"@ + name + "` and `"@ + trait_name + "`'s declaration disagree about `sink`"@)
        .label("conflicting mode"@)
        .note("a parameter's mode is the trait's to declare: whether the caller keeps the value is part of the contract, and every impl spells the same one"@)
}

#[verifier::opaque]
pub open spec fn incomplete_impl(
    span: Span,
    trait_name: Seq<char>,
    receiver: Seq<char>,
    missing: Seq<char>,
) -> Report {
    Report::new(span, "`impl "@ + trait_name + " for "@ + receiver + "` does not implement "@ + missing)
        .label("incomplete impl"@)
        .note("a type implements all of a trait or none of it"@)
}

#[verifier::opaque]
pub open spec fn type_not_trait(span: Span, name: Seq<char>, what: Seq<char>) -> Report {
    Report::new(span, "`"@ + name + "` is "@ + what + ", not a trait"@)
        .label("a type cannot stand here"@)
        .note("a bound (`T: Display`) and an `impl` header both name a trait; a type is what implements one"@)
}

#[verifier::opaque]
pub open spec fn unknown_trait(span: Span, name: Seq<char>) -> Report {
    Report::new(span, "unknown trait `"@ + name + "`"@)
}

#[verifier::opaque]
pub open spec fn decl_not_trait(span: Span, text: Seq<char>, kind: Seq<char>) -> Report {
    Report::new(span, "`"@ + text + "` is a "@ + kind + ", not a trait"@)
        .label("cannot be implemented"@)
}

#[verifier::opaque]
pub open spec fn method_type_args(span: Span, name: Seq<char>) -> Report {
    Report::new(span, "`"@ + name + "` takes no type arguments"@)
        .note("a method's types are fixed by its trait and its receiver"@)
}

#[verifier::opaque]
pub open spec fn input_not_method(span: Span, name: Seq<char>) -> Report {
    Report::new(span, "`"@ + name + "` is an input, not a method"@)
        .label("an input is a mailbox"@)
        .note("put a message in it with `send(handle."@ + name + ", …)`"@)
}

#[verifier::opaque]
pub open spec fn signal_not_method(span: Span, name: Seq<char>) -> Report {
    Report::new(span, "`"@ + name + "` is an exported signal, not a method"@)
        .label("a signal is read, not called"@)
        .note("read its latest published value with `latest(handle."@ + name + ")`"@)
}

#[verifier::opaque]
pub open spec fn bare_param_method(span: Span, name: Seq<char>, method: Seq<char>) -> Report {
    Report::new(span, "a bare `"@ + name + "` has no methods"@)
        .label("`"@ + method + "` called on a type parameter"@)
}

#[verifier::opaque]
pub open spec fn no_bound_provides(
    span: Span,
    name: Seq<char>,
    method: Seq<char>,
    roster: Seq<char>,
) -> Report {
    Report::new(span, "none of `"@ + name + "`'s bounds provides `"@ + method + "`"@)
        .label("not in the bounds"@)
        .note("a method on `"@ + name + "` must come from a declared bound; here that is "@ + roster)
}

#[verifier::opaque]
pub open spec fn ambiguous_bounds(span: Span, name: Seq<char>, method: Seq<char>) -> Report {
    Report::new(span, "more than one of `"@ + name + "`'s bounds provides `"@ + method + "`"@)
        .label("ambiguous method"@)
}

#[verifier::opaque]
pub open spec fn field_not_method(span: Span, name: Seq<char>, ty: Seq<char>) -> Report {
    Report::new(span, "`"@ + name + "` is a field of "@ + ty + ", not a method"@)
        .label("fields hold values; they cannot be called"@)
        .note("an `impl` is what gives a type methods"@)
}

#[verifier::opaque]
pub open spec fn no_method(span: Span, ty: Seq<char>, name: Seq<char>) -> Report {
    Report::new(span, ty + " has no method `"@ + name + "`"@)
        .label("no impl provides it"@)
        .note("a method comes from a trait: an `impl` with a `fn "@ + name + "` taking "@ + ty + " is what declares one"@)
}

#[verifier::opaque]
pub open spec fn ambiguous_method(span: Span, ty: Seq<char>, name: Seq<char>) -> Report {
    Report::new(span, ty + " has more than one method named `"@ + name + "`"@)
        .label("ambiguous method"@)
}

#[verifier::opaque]
pub open spec fn too_deep(span: Span) -> Report {
    Report::new(span, "generic instantiation recursed too deeply"@)
        .label("more than 32 levels of substitution"@)
        .note("a type that grows with every substitution never converges; check for a type argument that mentions the type it instantiates"@)
}

#[verifier::opaque]
pub open spec fn too_many_types(span: Span) -> Report {
    Report::new(span, "this program needs more than 4096 generic instances"@)
        .label("instantiation stopped here"@)
        .note("a ceiling this size is only ever reached by a type that grows under substitution and never converges"@)
}

#[verifier::opaque]
pub open spec fn too_many_fns(span: Span) -> Report {
    Report::new(span, "this program needs more than 4096 generic instances"@)
        .label("instantiation stopped here"@)
        .note("a ceiling this size is only ever reached by an instantiation that never converges"@)
}

#[verifier::opaque]
pub open spec fn ever_deeper(span: Span, name: Seq<char>) -> Report {
    Report::new(span, "`"@ + name + "` instantiates itself at an ever-deeper type"@)
        .label("more than 32 instantiations deep"@)
        .note("a generic function that calls itself at a bigger type than it was given never stops instantiating; make the recursion reuse the caller's own type parameters"@)
}

#[verifier::opaque]
pub open spec fn eq_unsatisfied(
    span: Span,
    display: Seq<char>,
    param: Seq<char>,
    trait_name: Seq<char>,
    ty: Seq<char>,
) -> Report {
    Report::new(span, "`"@ + display + "` requires `"@ + param + ": "@ + trait_name + "`, and `"@ + ty + "` is not `"@ + trait_name + "`"@)
        .label("`"@ + param + "` is `"@ + ty + "` here"@)
        .note("`Eq` is compiler-defined: exactly `I64`, `F64`, `Bool`, `String`, and `Bytes` satisfy it until derived equality lands (BOOTSTRAP.md §8 item 9)"@)
}

#[verifier::opaque]
pub open spec fn bound_unsatisfied(
    span: Span,
    display: Seq<char>,
    param: Seq<char>,
    trait_name: Seq<char>,
    ty: Seq<char>,
) -> Report {
    Report::new(span, "`"@ + display + "` requires `"@ + param + ": "@ + trait_name + "`, and `"@ + ty + "` is not `"@ + trait_name + "`"@)
        .label("`"@ + param + "` is `"@ + ty + "` here"@)
        .note("write `impl "@ + trait_name + " for "@ + ty + " { … }` in the trait's module or the type's"@)
}

#[verifier::opaque]
pub open spec fn call_uninferable(span: Span, param: Seq<char>, display: Seq<char>) -> Report {
    Report::new(span, "cannot tell what type `"@ + param + "` is in this call of `"@ + display + "`"@)
        .label("no argument or expectation pins it down"@)
        .note("say it explicitly, as in `"@ + display + "<I64>(…)`"@)
}

#[verifier::opaque]
pub open spec fn construction_uninferable(
    span: Span,
    param: Seq<char>,
    display: Seq<char>,
    example: Seq<char>,
) -> Report {
    Report::new(span, "cannot tell what type `"@ + param + "` is in this construction of `"@ + display + "`"@)
        .label("no argument or expectation pins it down"@)
        .note("annotate the binding, as in `let x: "@ + display + "<"@ + example + "> = …`"@)
}

#[verifier::opaque]
pub open spec fn shared_affine(span: Span, name: Seq<char>) -> Report {
    Report::new(span, "`shared` cannot take "@ + name)
        .label("instantiated here with an affine payload"@)
        .note("resources and tasks have exactly one owner; share the data, not the handle"@)
}

#[verifier::opaque]
pub open spec fn slots_affine(span: Span, name: Seq<char>) -> Report {
    Report::new(span, "a `Slots` value cannot hold "@ + name)
        .label("instantiated here with an affine element"@)
        .note("resources and tasks have exactly one owner; hold the data, not the handle"@)
}

#[verifier::opaque]
pub open spec fn member_ctor_name(span: Span, name: Seq<char>) -> Report {
    Report::new(span, "`"@ + name + "` cannot be the name of a member"@)
        .label("a built-in constructor"@)
        .note("`None`, `Some`, `Ok`, and `Err` always name the Option and Result constructors"@)
}

#[verifier::opaque]
pub open spec fn member_twice(
    span: Span,
    name: Seq<char>,
    reactor: Seq<char>,
    first: Span,
) -> Report {
    Report::new(span, "`"@ + name + "` is declared twice in `"@ + reactor + "`"@)
        .label("duplicate member"@)
        .secondary(first, "first declared here"@)
}

#[verifier::opaque]
pub open spec fn param_mode(span: Span, word: Seq<char>) -> Report {
    Report::new(span, "a reactor parameter has no mode"@)
        .label("`"@ + word + "` does not apply here"@)
        .note("`spawn reactor` always hands its arguments over; there is no call for a mode to describe"@)
}

#[verifier::opaque]
pub open spec fn on_needs_queue(span: Span, name: Seq<char>, bound: Seq<char>) -> Report {
    Report::new(span, "a type here declares `"@ + name + "`, so it needs a queue policy"@)
        .label("no queue policy"@)
        .note("an input is a bounded mailbox: write `on "@ + name + "("@ + bound + ": …) [capacity: …, overflow: …]`, or drop the type and let an `input "@ + name + "` member declare it"@)
}

#[verifier::opaque]
pub open spec fn on_needs_type(
    span: Span,
    name: Seq<char>,
    bound: Seq<char>,
    queue: Span,
) -> Report {
    Report::new(span, "`"@ + name + "` is declared here, so `"@ + bound + "` needs the message type"@)
        .label("no type on the message"@)
        .secondary(queue, "this queue clause declares the input"@)
        .note("write `on "@ + name + "("@ + bound + ": …) [capacity: …, overflow: …]`, or drop the clause and let an `input "@ + name + "` member declare it"@)
}

#[verifier::opaque]
pub open spec fn no_such_input(span: Span, reactor: Seq<char>, name: Seq<char>) -> Report {
    Report::new(span, "`"@ + reactor + "` has no input `"@ + name + "`"@)
        .label("nothing would send this"@)
}

#[verifier::opaque]
pub open spec fn second_handler(span: Span, name: Seq<char>, input: Span) -> Report {
    Report::new(span, "`"@ + name + "` already has a handler"@)
        .label("second `on` for one input"@)
        .secondary(input, "the input"@)
        .note("one input is one handler: two would need an order between them, and a turn has none"@)
}

#[verifier::opaque]
pub open spec fn no_handler(span: Span, name: Seq<char>) -> Report {
    Report::new(span, "`"@ + name + "` has no `on "@ + name + "` handler"@)
        .label("nothing responds to this"@)
        .note("an input is how a message reaches state; with no handler it can only be dropped"@)
}

#[verifier::opaque]
pub open spec fn init_reads(span: Span, sort: Seq<char>, name: Seq<char>) -> Report {
    Report::new(span, "a `state` initialiser cannot read the "@ + sort + " `"@ + name + "`"@)
        .label("initialisers run before the first turn"@)
        .note("read a constructor parameter instead, or derive the value with a signal"@)
}

#[verifier::opaque]
pub open spec fn init_calls(span: Span, sort: Seq<char>, name: Seq<char>) -> Report {
    Report::new(span, "a `state` initialiser cannot call the "@ + sort + " `"@ + name + "`"@)
        .label("initialisers run before the first turn"@)
        .note("read a constructor parameter instead, or derive the value with a signal"@)
}

#[verifier::opaque]
pub open spec fn carries_no_message(span: Span, input: Seq<char>) -> Report {
    Report::new(span, "`"@ + input + "` carries no message, so `on "@ + input + "()` binds nothing"@)
        .label("declared as `()`"@)
}

#[verifier::opaque]
pub open spec fn binds_one_message(
    span: Span,
    input: Seq<char>,
    found: Seq<char>,
    ty: Seq<char>,
) -> Report {
    Report::new(span, "`on "@ + input + "` binds the message it was sent, so it takes one name, not "@ + found)
        .note("write `on "@ + input + "(message)`, where `message` is the "@ + ty + " it was sent"@)
}

#[verifier::opaque]
pub open spec fn reactor_holds(
    span: Span,
    what: Seq<char>,
    spelled: Seq<char>,
    name: Seq<char>,
) -> Report {
    Report::new(span, "a reactor's "@ + what + " cannot hold a `"@ + spelled + "`"@)
        .label("`"@ + name + "` would own something the graph cannot close"@)
        .note("a reactor's state is a value that could be written down and restored, and an open descriptor is not"@)
        .note("count what a task owns and send the reactor the count: see `examples/reactors/server.norn`"@)
}

#[verifier::opaque]
pub open spec fn causality_cycle(span: Span, path: Seq<char>, label: Seq<char>) -> Report {
    Report::new(span, "instantaneous causality cycle "@ + path)
        .label(label)
}

#[verifier::opaque]
pub open spec fn capacity_positive(span: Span) -> Report {
    Report::new(span, "a capacity must be positive"@)
        .label("nothing could ever be queued"@)
        .note("a mailbox that holds nothing is an input nothing can reach"@)
}

#[verifier::opaque]
pub open spec fn capacity_literal(span: Span) -> Report {
    Report::new(span, "a capacity must be an integer literal"@)
        .label("not a literal"@)
        .note("the bound is part of the reactor's shape, so it is known before anything runs"@)
}

#[verifier::opaque]
pub open spec fn unknown_overflow(span: Span, name: Seq<char>, known: Seq<char>) -> Report {
    Report::new(span, "unknown overflow policy `"@ + name + "`"@)
        .label("not a policy v0 knows"@)
        .note("the vocabulary is fixed: "@ + known)
}

} // verus!
