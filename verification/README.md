# norn_hir

The middle of a compiler for Norn, a small language of functions, tasks and reactors: it resolves
names, checks types and ownership, and turns the syntax trees of a program's files into one typed
program. It is written in Verus: its functions carry contracts, and the contracts are proved.

    let checked = check_modules(&inputs, vocabulary);
    if checked.ok() {
        run(checked.program)
    }

`vocabulary` is what the host offers: its builtins, its capabilities, the failures of its input and
output, and how its standard library is listed to a reader.

## How it is laid out

| Where | What |
| --- | --- |
| `ast`, `hir` | the tree that comes in, the program that goes out |
| `model`, `state` | what they are mathematically, and what the checker knows at one point |
| `checker`, `tables`, `start` | the checker, its tables, and how it starts |
| `specifier`, `imports` | which file an import names, and what it binds |
| `item`, `traits` | declarations: types, functions, traits and impls |
| `resolve`, `generics`, `infer`, `instances` | types, and generic ones at given arguments |
| `binding`, `path`, `pat`, `plan`, `call`, `steps`, `expr` | expressions, calls and patterns |
| `scan`, `members`, `wiring`, `reactor` | reactors: members, dependencies, and bodies in dependency order |
| `graph`, `cycle`, `order` | the graph algorithms behind reactors and turns |
| `mono` | concrete copies of generic functions |
| `turns`, `sink`, `moves`, `passes` | what turns may reach, what is handed over, and what is used after that |
| `reports`, `say`, `filing` | the diagnostics: what each says, and whose list it stands in |
| `check` | the phases in order, and the functions a caller calls |
| `growth` | what every step keeps, and what follows for checking as a whole |

A specification function and the executable function it describes carry the same name. The first
stands in the upper half of a file, over the types of `model` and `state`; the second in the lower
half, as a method of `Checker`, with a contract that says its effect is the first.

## What is proved of the whole

- Every file has its own list of diagnostics, in source order, and no phase takes one back.
- No trait is implemented twice for one type, and every impl lives with its trait or its type.
- Equal arguments share one instance of a generic type or function, and every instance asked for is
  made.
- Where a reactor's graph is accepted and no two of its members share a name, its nodes stand in an
  order in which each comes after everything it depends on; a cycle among its signals is found
  whenever there is one.
- The plan of an input is exactly the part of that order that its handler's writes can touch.
- A turn about which nothing is reported is pure and ends, and an effect about which nothing is
  reported never waits for room in a mailbox.
- The modes that inference settles on are the least ones that every body agrees with, and there is
  one such table.
