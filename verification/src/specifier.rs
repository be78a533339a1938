//! Import specifiers: which module a written path names.

use vstd::prelude::*;
use vstd::string::*;
use crate::span::texts;
use crate::text::{join, joined, same};

verus! {

/// Why an import specifier could not be resolved to a module key.
#[derive(Debug)]
pub enum SpecifierError {
    /// No leading `./` or `../`, and not `std/…`: the shape reserved for packages.
    Bare,
    /// The specifier wrote the `.norn`, which is implied.
    Extension,
}

/// Where a specifier resolved to. Provenance is carried rather than re-inferred from the key's
/// shape, because the shapes can coincide: a relative `./std/fs` from a root-level entry
/// legitimately yields the file key `std/fs.norn`. The keys themselves cannot collide: relative
/// resolution always appends `.norn`, and a std key never has it.
#[derive(Debug)]
pub enum Resolved {
    /// A relative specifier: the key names a file, `.norn` appended.
    File(String),
    /// A `std/…` specifier: the key is the specifier verbatim, extensionless.
    Std(String),
}

/// A resolved key, as characters.
pub enum Key {
    File(Seq<char>),
    Std(Seq<char>),
}

impl Resolved {
    pub open spec fn view(&self) -> Key {
        match self {
            Resolved::File(key) => Key::File(key@),
            Resolved::Std(key) => Key::Std(key@),
        }
    }
}

pub open spec fn starts_with(s: Seq<char>, prefix: Seq<char>) -> bool {
    prefix.len() <= s.len() && s.take(prefix.len() as int) == prefix
}

pub open spec fn ends_with(s: Seq<char>, suffix: Seq<char>) -> bool {
    suffix.len() <= s.len() && s.skip(s.len() - suffix.len()) == suffix
}

/// The position of the first `/`, or the length when there is none.
pub open spec fn first_slash(s: Seq<char>) -> int
    decreases s.len(),
{
    if s.len() == 0 || s[0] == '/' {
        0
    } else {
        1 + first_slash(s.drop_first())
    }
}

/// The maximal runs between slashes: one more than there are slashes, some possibly empty.
pub open spec fn segments(s: Seq<char>) -> Seq<Seq<char>>
    decreases s.len(),
{
    let at = first_slash(s);
    if at < 0 || at >= s.len() {
        seq![s]
    } else {
        seq![s.take(at)] + segments(s.skip(at + 1))
    }
}

/// The segments of everything before the last `/`; none when there is no `/`.
pub open spec fn directory(key: Seq<char>) -> Seq<Seq<char>> {
    segments(key).drop_last()
}

/// One step of a walk: stay, go up (staying at the root), or go into a directory.
pub open spec fn step(at: Seq<Seq<char>>, segment: Seq<char>) -> Seq<Seq<char>> {
    if segment == ""@ || segment == "."@ {
        at
    } else if segment == ".."@ {
        if at.len() == 0 {
            at
        } else {
            at.drop_last()
        }
    } else {
        at.push(segment)
    }
}

pub open spec fn walk(at: Seq<Seq<char>>, path: Seq<Seq<char>>) -> Seq<Seq<char>>
    decreases path.len(),
{
    if path.len() == 0 {
        at
    } else {
        step(walk(at, path.drop_last()), path.last())
    }
}

/// What a specifier means when written in the module named by `importer`.
pub open spec fn resolution(importer: Seq<char>, specifier: Seq<char>) -> Result<
    Key,
    SpecifierError,
> {
    if ends_with(specifier, ".norn"@) {
        Err(SpecifierError::Extension)
    } else if starts_with(specifier, "std/"@) {
        Ok(Key::Std(specifier))
    } else if !starts_with(specifier, "./"@) && !starts_with(specifier, "../"@) {
        Err(SpecifierError::Bare)
    } else {
        Ok(Key::File(joined(walk(directory(importer), segments(specifier)), "/"@) + ".norn"@))
    }
}

proof fn first_slash_bounds(s: Seq<char>)
    ensures
        0 <= first_slash(s) <= s.len(),
        first_slash(s) < s.len() ==> s[first_slash(s)] == '/',
        forall|i: int| 0 <= i < first_slash(s) ==> s[i] != '/',
    decreases s.len(),
{
    if s.len() > 0 && s[0] != '/' {
        first_slash_bounds(s.drop_first());
        assert forall|i: int| 0 <= i < first_slash(s) implies s[i] != '/' by {
            if i > 0 {
                assert(s[i] == s.drop_first()[i - 1]);
            }
        }
    }
}

/// `first_slash` is the only position with nothing but other characters before it.
proof fn first_slash_is(s: Seq<char>, at: int)
    requires
        0 <= at <= s.len(),
        at < s.len() ==> s[at] == '/',
        forall|i: int| 0 <= i < at ==> s[i] != '/',
    ensures
        first_slash(s) == at,
{
    first_slash_bounds(s);
}

pub proof fn segments_nonempty(s: Seq<char>)
    ensures
        segments(s).len() >= 1,
    decreases s.len(),
{
    first_slash_bounds(s);
    if first_slash(s) < s.len() {
        segments_nonempty(s.skip(first_slash(s) + 1));
    }
}

pub fn has_prefix(s: &str, prefix: &str) -> (r: bool)
    ensures
        r == starts_with(s@, prefix@),
{
    let n = prefix.unicode_len();
    if n > s.unicode_len() {
        return false;
    }
    same(s.substring_char(0, n), prefix)
}

pub fn has_suffix(s: &str, suffix: &str) -> (r: bool)
    ensures
        r == ends_with(s@, suffix@),
{
    let n = suffix.unicode_len();
    let all = s.unicode_len();
    if n > all {
        return false;
    }
    same(s.substring_char(all - n, all), suffix)
}

pub fn split(s: &str) -> (r: Vec<String>)
    ensures
        texts(r@) == segments(s@),
{
    let all = s.unicode_len();
    let mut out: Vec<String> = Vec::new();
    let mut from: usize = 0;
    let mut at: usize = 0;
    let ghost chars = s@;
    assert(chars.skip(0) =~= chars);
    assert(texts(out@) + segments(chars) =~= segments(chars));
    while at < all
        invariant
            chars == s@,
            all == chars.len(),
            from <= at <= all,
            forall|i: int| from <= i < at ==> chars[i] != '/',
            segments(chars) == texts(out@) + segments(chars.skip(from as int)),
        decreases all - at,
    {
        if s.get_char(at) == '/' {
            proof {
                let rest = chars.skip(from as int);
                first_slash_is(rest, at - from);
                assert(rest.take(at - from) =~= chars.subrange(from as int, at as int));
                assert(rest.skip(at - from + 1) =~= chars.skip(at + 1));
            }
            let ghost before = out@;
            out.push(s.substring_char(from, at).to_owned());
            assert(texts(out@) =~= texts(before).push(chars.subrange(from as int, at as int)));
            assert(segments(chars) =~= texts(out@) + segments(chars.skip(at + 1)));
            from = at + 1;
        }
        at = at + 1;
    }
    proof {
        let rest = chars.skip(from as int);
        first_slash_is(rest, rest.len() as int);
        assert(rest =~= chars.subrange(from as int, all as int));
    }
    let ghost before = out@;
    out.push(s.substring_char(from, all).to_owned());
    assert(texts(out@) =~= texts(before).push(chars.subrange(from as int, all as int)));
    assert(texts(out@) =~= segments(chars));
    out
}

/// Resolve an import specifier against the key of the importing module: `std/…` is a
/// standard-library key, verbatim; anything else is the importer's directory followed by the
/// specifier, with `.` and `..` folded lexically and `.norn` appended.
///
/// Lexical means `./a/../fmt` and `./fmt` coincide; symlink aliasing is not looked through.
pub fn resolve_specifier(importer_key: &str, specifier: &str) -> (r: Result<
    Resolved,
    SpecifierError,
>)
    ensures
        match (r, resolution(importer_key@, specifier@)) {
            (Ok(resolved), Ok(key)) => resolved@ == key,
            (Err(found), Err(wanted)) => found == wanted,
            _ => false,
        },
{
    // Ahead of the std branch on purpose: `"std/fmt.norn"` is the extension mistake, not a
    // standard-library module that does not exist.
    if has_suffix(specifier, ".norn") {
        return Err(SpecifierError::Extension);
    }
    if has_prefix(specifier, "std/") {
        return Ok(Resolved::Std(specifier.to_owned()));
    }
    if !has_prefix(specifier, "./") && !has_prefix(specifier, "../") {
        return Err(SpecifierError::Bare);
    }
    let mut parts = split(importer_key);
    proof {
        segments_nonempty(importer_key@);
    }
    let ghost whole = parts@;
    parts.pop();
    assert(texts(parts@) =~= texts(whole).drop_last());
    let path = split(specifier);
    let ghost dir = texts(parts@);
    let ghost steps = texts(path@);
    for i in 0..path.len()
        invariant
            steps == texts(path@),
            texts(parts@) == walk(dir, steps.take(i as int)),
    {
        let segment = path[i].as_str();
        let ghost before = texts(parts@);
        assert(steps.take(i + 1).drop_last() =~= steps.take(i as int));
        if same(segment, "") || same(segment, ".") {
        } else if same(segment, "..") {
            if parts.len() > 0 {
                parts.pop();
                assert(texts(parts@) =~= before.drop_last());
            }
        } else {
            parts.push(segment.to_owned());
            assert(texts(parts@) =~= before.push(segment@));
        }
        assert(steps.take(i + 1).last() == segment@);
    }
    assert(steps.take(path.len() as int) =~= steps);
    Ok(Resolved::File(join(&parts, "/").concat(".norn")))
}

/// Relative resolution always ends in `.norn` and a standard-library key never does, so a file
/// and a standard-library module cannot be confused by their keys.
pub proof fn file_and_std_keys_never_collide(importer: Seq<char>, specifier: Seq<char>)
    ensures
        match resolution(importer, specifier) {
            Ok(Key::File(key)) => ends_with(key, ".norn"@),
            Ok(Key::Std(key)) => !ends_with(key, ".norn"@) && key == specifier,
            Err(_) => true,
        },
{
    if let Ok(Key::File(key)) = resolution(importer, specifier) {
        let stem = joined(walk(directory(importer), segments(specifier)), "/"@);
        assert(key.skip(key.len() - ".norn"@.len()) =~= ".norn"@);
    }
}

/// A name that stands for a directory or file of its own: not empty, not `.` or `..`, and
/// without a `/`.
pub open spec fn is_plain_name(name: Seq<char>) -> bool {
    &&& name.len() > 0
    &&& name != "."@
    &&& name != ".."@
    &&& forall|i: int| 0 <= i < name.len() ==> name[i] != '/'
}

/// Splitting after a run without slashes and a slash peels off that run.
proof fn segments_peel(head: Seq<char>, rest: Seq<char>)
    requires
        forall|i: int| 0 <= i < head.len() ==> head[i] != '/',
    ensures
        segments(head + seq!['/'] + rest) == seq![head] + segments(rest),
{
    let s = head + seq!['/'] + rest;
    first_slash_is(s, head.len() as int);
    assert(s.take(head.len() as int) =~= head);
    assert(s.skip(head.len() as int + 1) =~= rest);
}

proof fn walk_append(at: Seq<Seq<char>>, a: Seq<Seq<char>>, b: Seq<Seq<char>>)
    ensures
        walk(at, a + b) == walk(walk(at, a), b),
    decreases b.len(),
{
    if b.len() == 0 {
        assert(a + b =~= a);
    } else {
        walk_append(at, a, b.drop_last());
        assert((a + b).drop_last() =~= a + b.drop_last());
        assert((a + b).last() == b.last());
    }
}

/// Folding is lexical: going into a directory and straight back out changes nothing, so
/// `./a/../fmt` and `./fmt` name the same module whatever module writes them.
pub proof fn detours_fold_away(importer: Seq<char>, name: Seq<char>, rest: Seq<char>)
    requires
        is_plain_name(name),
    ensures
        resolution(importer, "./"@ + name + "/../"@ + rest) == resolution(importer, "./"@ + rest),
{
    reveal_strlit("./");
    reveal_strlit("/../");
    reveal_strlit("../");
    reveal_strlit("std/");
    reveal_strlit(".norn");
    reveal_strlit(".");
    reveal_strlit("..");
    reveal_strlit("");
    let long = "./"@ + name + "/../"@ + rest;
    let short = "./"@ + rest;
    // The extension test sees only the end, and an end long enough to reach past `rest` holds `/`.
    assert(ends_with(long, ".norn"@) == ends_with(short, ".norn"@)) by {
        let n = 5int;
        if rest.len() >= n {
            assert(long.skip(long.len() - n) =~= rest.skip(rest.len() - n));
            assert(short.skip(short.len() - n) =~= rest.skip(rest.len() - n));
        } else {
            let k = n - 1 - rest.len();
            let tail = long.skip(long.len() - n);
            assert(tail[k] == '/');
            if short.len() >= n {
                let tail = short.skip(short.len() - n);
                assert(tail[k] == '/');
            }
        }
    }
    assert(long.take(2) =~= "./"@);
    assert(short.take(2) =~= "./"@);
    assert(long.take(4)[0] == '.');
    assert("std/"@[0] == 's');
    if short.len() >= 4 {
        assert(short.take(4)[0] == '.');
    }
    let dot = "."@;
    let up = ".."@;
    assert(long =~= dot + seq!['/'] + (name + seq!['/'] + (up + seq!['/'] + rest)));
    assert(short =~= dot + seq!['/'] + rest);
    segments_peel(dot, name + seq!['/'] + (up + seq!['/'] + rest));
    segments_peel(name, up + seq!['/'] + rest);
    segments_peel(up, rest);
    segments_peel(dot, rest);
    let start = directory(importer);
    let tail = segments(rest);
    let there = seq![dot, name, up];
    assert(segments(long) =~= there + tail);
    assert(segments(short) =~= seq![dot] + tail);
    walk_append(start, there, tail);
    walk_append(start, seq![dot], tail);
    assert(walk(start, seq![dot]) == start) by {
        assert(seq![dot].drop_last() =~= seq![]);
        assert(walk(start, seq![]) == start);
    }
    assert(walk(start, there) == start) by {
        assert(there.drop_last().drop_last() =~= seq![dot]);
        assert(there.drop_last().last() == name);
        assert(walk(start, seq![dot, name]) == start.push(name)) by {
            assert(seq![dot, name].drop_last() =~= seq![dot]);
        }
        assert(there.drop_last() =~= seq![dot, name]);
        assert(start.push(name).drop_last() =~= start);
        assert(up != dot) by {
            assert(up.len() == 2);
        }
        assert(up != ""@);
    }
}

} // verus!
