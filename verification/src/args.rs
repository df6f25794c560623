//! The words, flags and options of a command line.
//!
//! A flag is given as `--name`, or as one letter behind a single `-`, where
//! several letters may follow each other. An option is written like a flag
//! and takes the next argument as its values, with commas between them.
//! Each flag and option has several names, of which the first is its key.

use vstd::prelude::*;
use crate::paths::names;
use crate::text::{chars, pieces_view, slice, split, split_spec, starts_with, starts_with_spec, string};

verus! {

/// What a command line holds.
#[derive(Debug, Default)]
pub struct ParsedArgs {
    /// The arguments that are neither flags nor options, in their order.
    pub words: Vec<String>,
    /// The keys of the flags, in their order, repeated as often as given.
    pub flags: Vec<String>,
    /// The options with their values, by key, each key once.
    pub options: Vec<(String, Vec<String>)>,
}

/// A command line as plain values.
pub struct ArgsView {
    pub words: Seq<Seq<char>>,
    pub flags: Seq<Seq<char>>,
    pub options: Seq<(Seq<char>, Seq<Seq<char>>)>,
}

/// What has been read of a command line so far.
pub struct ArgsState {
    pub parsed: ArgsView,
    /// The key of the option that waits for its values; empty where none does.
    pub listener: Seq<char>,
}

/// The groups of names as plain values.
pub open spec fn groups_view(groups: Seq<Vec<String>>) -> Seq<Seq<Seq<char>>> {
    Seq::new(groups.len(), |i: int| names(groups[i]@))
}

/// The options as plain values.
pub open spec fn options_view(options: Seq<(String, Vec<String>)>) -> Seq<
    (Seq<char>, Seq<Seq<char>>),
> {
    Seq::new(options.len(), |i: int| (options[i].0@, names(options[i].1@)))
}

impl View for ParsedArgs {
    type V = ArgsView;

    open spec fn view(&self) -> ArgsView {
        ArgsView {
            words: names(self.words@),
            flags: names(self.flags@),
            options: options_view(self.options@),
        }
    }
}

/// The key that `name` stands for: the first name of the last group that
/// holds it.
pub open spec fn key_of(groups: Seq<Seq<Seq<char>>>, name: Seq<char>) -> Option<Seq<char>>
    decreases groups.len(),
{
    if groups.len() == 0 {
        None
    } else if groups.last().len() > 0 && groups.last().contains(name) {
        Some(groups.last()[0])
    } else {
        key_of(groups.drop_last(), name)
    }
}

/// Where the option with `key` stands; the length where there is none.
pub open spec fn place_of(options: Seq<(Seq<char>, Seq<Seq<char>>)>, key: Seq<char>) -> int
    decreases options.len(),
{
    if options.len() == 0 {
        0
    } else if options[0].0 == key {
        0
    } else {
        1 + place_of(options.skip(1), key)
    }
}

/// The options with `values` for `key`, in place of earlier values for it.
pub open spec fn put(
    options: Seq<(Seq<char>, Seq<Seq<char>>)>,
    key: Seq<char>,
    values: Seq<Seq<char>>,
) -> Seq<(Seq<char>, Seq<Seq<char>>)> {
    let place = place_of(options, key);
    if 0 <= place < options.len() {
        options.update(place, (key, values))
    } else {
        options.push((key, values))
    }
}

/// What is read so far after the flag or option `name`, or the complaint
/// about a name that is neither; `dashes` is what stood before the name.
pub open spec fn take_name(
    state: ArgsState,
    name: Seq<char>,
    dashes: Seq<char>,
    flags: Seq<Seq<Seq<char>>>,
    opts: Seq<Seq<Seq<char>>>,
) -> Result<ArgsState, Seq<char>> {
    match key_of(opts, name) {
        Some(key) => Ok(ArgsState { listener: key, ..state }),
        None => match key_of(flags, name) {
            Some(key) => Ok(
                ArgsState {
                    parsed: ArgsView { flags: state.parsed.flags.push(key), ..state.parsed },
                    ..state
                },
            ),
            None => Err("unknown flag '"@ + dashes + name + "'"@),
        },
    }
}

/// What is read so far after the letters that follow a single `-`.
pub open spec fn take_letters(
    state: ArgsState,
    letters: Seq<char>,
    flags: Seq<Seq<Seq<char>>>,
    opts: Seq<Seq<Seq<char>>>,
) -> Result<ArgsState, Seq<char>>
    decreases letters.len(),
{
    if letters.len() == 0 {
        Ok(state)
    } else {
        match take_name(state, seq![letters[0]], "-"@, flags, opts) {
            Ok(next) => take_letters(next, letters.skip(1), flags, opts),
            Err(text) => Err(text),
        }
    }
}

/// What is read so far after one more argument.
pub open spec fn take_arg(
    state: ArgsState,
    arg: Seq<char>,
    flags: Seq<Seq<Seq<char>>>,
    opts: Seq<Seq<Seq<char>>>,
) -> Result<ArgsState, Seq<char>> {
    if state.listener.len() > 0 {
        Ok(
            ArgsState {
                parsed: ArgsView {
                    options: put(state.parsed.options, state.listener, split_spec(arg, ',')),
                    ..state.parsed
                },
                listener: Seq::empty(),
            },
        )
    } else if starts_with_spec(arg, "--"@) {
        take_name(state, arg.skip(2), "--"@, flags, opts)
    } else if starts_with_spec(arg, "-"@) {
        take_letters(state, arg.skip(1), flags, opts)
    } else {
        Ok(
            ArgsState {
                parsed: ArgsView { words: state.parsed.words.push(arg), ..state.parsed },
                ..state
            },
        )
    }
}

/// What the arguments come to, read one after the other from `state` on. An
/// option that still waits for its values at the end is an error.
pub open spec fn parse_from(
    state: ArgsState,
    args: Seq<Seq<char>>,
    flags: Seq<Seq<Seq<char>>>,
    opts: Seq<Seq<Seq<char>>>,
) -> Result<ArgsView, Seq<char>>
    decreases args.len(),
{
    if args.len() == 0 {
        if state.listener.len() > 0 {
            Err("option '"@ + state.listener + "' requires a value"@)
        } else {
            Ok(state.parsed)
        }
    } else {
        match take_arg(state, args[0], flags, opts) {
            Ok(next) => parse_from(next, args.skip(1), flags, opts),
            Err(text) => Err(text),
        }
    }
}

/// The state before anything is read.
pub open spec fn nothing_read() -> ArgsState {
    ArgsState {
        parsed: ArgsView { words: Seq::empty(), flags: Seq::empty(), options: Seq::empty() },
        listener: Seq::empty(),
    }
}

/// What parsing returns, as plain values.
pub open spec fn parsed_view(parsed: Result<ParsedArgs, String>) -> Result<ArgsView, Seq<char>> {
    match parsed {
        Ok(args) => Ok(args@),
        Err(text) => Err(text@),
    }
}

/// Whether the group holds `name`.
fn holds(group: &Vec<String>, name: &str) -> (found: bool)
    ensures
        found == names(group@).contains(name@),
{
    let mut k: usize = 0;
    while k < group.len()
        invariant
            k <= group.len(),
            forall|j: int| 0 <= j < k ==> names(group@)[j] != name@,
        decreases group.len() - k,
    {
        if group[k].as_str().eq(name) {
            assert(names(group@)[k as int] == name@);
            return true;
        }
        k = k + 1;
    }
    false
}

/// Finds the key that `name` stands for.
fn find_key(groups: &Vec<Vec<String>>, name: &str) -> (key: Option<String>)
    ensures
        crate::text::option_view(key) == key_of(groups_view(groups@), name@),
{
    let mut i: usize = groups.len();
    assert(groups_view(groups@).take(i as int) =~= groups_view(groups@));
    while i > 0
        invariant
            i <= groups.len(),
            key_of(groups_view(groups@), name@) == key_of(
                groups_view(groups@).take(i as int),
                name@,
            ),
        decreases i,
    {
        let group = &groups[i - 1];
        proof {
            assert(groups_view(groups@).take(i as int).last() == names(group@));
            assert(groups_view(groups@).take(i as int).drop_last() =~= groups_view(groups@).take(
                i - 1,
            ));
        }
        if group.len() > 0 && holds(group, name) {
            assert(names(group@)[0] == group@[0]@);
            return Some(group[0].clone());
        }
        i = i - 1;
    }
    None
}

/// Where the option with `key` stands.
fn find_place(options: &Vec<(String, Vec<String>)>, key: &str) -> (place: usize)
    ensures
        place == place_of(options_view(options@), key@),
        place <= options.len(),
{
    let mut i: usize = 0;
    let ghost all = options_view(options@);
    assert(all.skip(0) =~= all);
    while i < options.len()
        invariant
            i <= options.len(),
            all == options_view(options@),
            place_of(all, key@) == i + place_of(all.skip(i as int), key@),
        decreases options.len() - i,
    {
        proof {
            assert(all.skip(i as int)[0] == all[i as int]);
            assert(all.skip(i as int).skip(1) =~= all.skip(i + 1));
        }
        if options[i].0.as_str().eq(key) {
            return i;
        }
        i = i + 1;
    }
    assert(all.skip(i as int).len() == 0);
    i
}

/// The values that `arg` holds between its commas.
fn values_of(arg: &Vec<char>) -> (values: Vec<String>)
    ensures
        names(values@) == split_spec(arg@, ','),
{
    let pieces = split(arg, ',');
    let mut values: Vec<String> = Vec::new();
    let mut i: usize = 0;
    while i < pieces.len()
        invariant
            i <= pieces.len(),
            values@.len() == i,
            forall|j: int| 0 <= j < i ==> values@[j]@ == pieces@[j]@,
        decreases pieces.len() - i,
    {
        values.push(string(&pieces[i]));
        i = i + 1;
    }
    assert(names(values@) =~= pieces_view(pieces@));
    values
}

/// What is read so far, as plain values.
pub open spec fn state_view(parsed: ParsedArgs, listener: String) -> ArgsState {
    ArgsState { parsed: parsed@, listener: listener@ }
}

/// Reads the flag or option `name`.
fn read_name(
    parsed: &mut ParsedArgs,
    listener: &mut String,
    name: &str,
    dashes: &str,
    valid_flags: &Vec<Vec<String>>,
    valid_opts: &Vec<Vec<String>>,
) -> (done: Result<(), String>)
    ensures
        match take_name(
            state_view(*old(parsed), *old(listener)),
            name@,
            dashes@,
            groups_view(valid_flags@),
            groups_view(valid_opts@),
        ) {
            Ok(next) => done is Ok && state_view(*final(parsed), *final(listener)) == next,
            Err(text) => done is Err && done->Err_0@ == text,
        },
{
    match find_key(valid_opts, name) {
        Some(key) => {
            *listener = key;
            Ok(())
        },
        None => match find_key(valid_flags, name) {
            Some(key) => {
                let ghost before = names(parsed.flags@);
                parsed.flags.push(key);
                assert(names(parsed.flags@) =~= before.push(key@));
                Ok(())
            },
            None => {
                let mut text = "unknown flag '".to_owned();
                vstd::string::StringExecFns::append(&mut text, dashes);
                vstd::string::StringExecFns::append(&mut text, name);
                vstd::string::StringExecFns::append(&mut text, "'");
                Err(text)
            },
        },
    }
}

/// Reads the letters of `text` from the second on, each a flag or an option.
fn read_letters(
    parsed: &mut ParsedArgs,
    listener: &mut String,
    text: &Vec<char>,
    valid_flags: &Vec<Vec<String>>,
    valid_opts: &Vec<Vec<String>>,
) -> (done: Result<(), String>)
    requires
        text.len() >= 1,
    ensures
        match take_letters(
            state_view(*old(parsed), *old(listener)),
            text@.skip(1),
            groups_view(valid_flags@),
            groups_view(valid_opts@),
        ) {
            Ok(next) => done is Ok && state_view(*final(parsed), *final(listener)) == next,
            Err(complaint) => done is Err && done->Err_0@ == complaint,
        },
{
    let ghost flags = groups_view(valid_flags@);
    let ghost opts = groups_view(valid_opts@);
    let ghost wanted = take_letters(state_view(*parsed, *listener), text@.skip(1), flags, opts);
    let mut k: usize = 1;
    while k < text.len()
        invariant
            1 <= k <= text.len(),
            flags == groups_view(valid_flags@),
            opts == groups_view(valid_opts@),
            wanted == take_letters(
                state_view(*old(parsed), *old(listener)),
                text@.skip(1),
                flags,
                opts,
            ),
            wanted == take_letters(
                state_view(*parsed, *listener),
                text@.skip(k as int),
                flags,
                opts,
            ),
        decreases text.len() - k,
    {
        let name = string(&slice(text, k, k + 1));
        let ghost state = state_view(*parsed, *listener);
        proof {
            assert(name@ =~= seq![text@.skip(k as int)[0]]);
            assert(text@.skip(k as int).skip(1) =~= text@.skip(k + 1));
            assert(text@.skip(k as int).len() > 0);
            assert(wanted == (match take_name(state, name@, "-"@, flags, opts) {
                Ok(next) => take_letters(next, text@.skip(k + 1), flags, opts),
                Err(complaint) => Err(complaint),
            }));
        }
        match read_name(parsed, listener, name.as_str(), "-", valid_flags, valid_opts) {
            Ok(_) => {},
            Err(complaint) => {
                return Err(complaint);
            },
        }
        k = k + 1;
    }
    assert(text@.skip(k as int).len() == 0);
    Ok(())
}

/// Reads one argument.
fn read_arg(
    parsed: &mut ParsedArgs,
    listener: &mut String,
    arg: &String,
    valid_flags: &Vec<Vec<String>>,
    valid_opts: &Vec<Vec<String>>,
) -> (done: Result<(), String>)
    ensures
        match take_arg(
            state_view(*old(parsed), *old(listener)),
            arg@,
            groups_view(valid_flags@),
            groups_view(valid_opts@),
        ) {
            Ok(next) => done is Ok && state_view(*final(parsed), *final(listener)) == next,
            Err(complaint) => done is Err && done->Err_0@ == complaint,
        },
{
    let text = chars(arg.as_str());
    let ghost state = state_view(*parsed, *listener);
    if !listener.as_str().is_empty() {
        let values = values_of(&text);
        let place = find_place(&parsed.options, listener.as_str());
        let ghost before = options_view(parsed.options@);
        let key = listener.clone();
        if place < parsed.options.len() {
            parsed.options.set(place, (key, values));
            assert(options_view(parsed.options@) =~= before.update(
                place as int,
                (state.listener, names(values@)),
            ));
        } else {
            parsed.options.push((key, values));
            assert(options_view(parsed.options@) =~= before.push(
                (state.listener, names(values@)),
            ));
        }
        *listener = String::new();
        assert(listener@ =~= Seq::<char>::empty());
        Ok(())
    } else if starts_with(&text, &chars("--")) {
        assert(text@.len() >= 2) by {
            assert("--"@.len() == 2) by {
                reveal_strlit("--");
            }
        }
        let name = string(&slice(&text, 2, text.len()));
        assert(name@ =~= arg@.skip(2));
        read_name(parsed, listener, name.as_str(), "--", valid_flags, valid_opts)
    } else if starts_with(&text, &chars("-")) {
        assert(text@.len() >= 1) by {
            assert("-"@.len() == 1) by {
                reveal_strlit("-");
            }
        }
        read_letters(parsed, listener, &text, valid_flags, valid_opts)
    } else {
        let ghost before = names(parsed.words@);
        parsed.words.push(arg.clone());
        assert(names(parsed.words@) =~= before.push(arg@));
        Ok(())
    }
}

/// Reads the command line `args`, where `valid_flags` and `valid_opts` hold,
/// for each flag and each option, its names: the first of them is its key.
///
/// The words, the keys of the flags and the options with their values come
/// back in the order of the arguments. A name that is neither a flag nor an
/// option is refused, and so is an option without values at the end.
pub fn parse_args(
    args: &Vec<String>,
    valid_flags: &Vec<Vec<String>>,
    valid_opts: &Vec<Vec<String>>,
) -> (parsed: Result<ParsedArgs, String>)
    ensures
        parsed_view(parsed) == parse_from(
            nothing_read(),
            names(args@),
            groups_view(valid_flags@),
            groups_view(valid_opts@),
        ),
{
    let ghost flags = groups_view(valid_flags@);
    let ghost opts = groups_view(valid_opts@);
    let ghost wanted = parse_from(nothing_read(), names(args@), flags, opts);
    let mut parsed = ParsedArgs { words: Vec::new(), flags: Vec::new(), options: Vec::new() };
    let mut listener = String::new();
    let mut i: usize = 0;
    proof {
        assert(names(args@).skip(0) =~= names(args@));
        assert(parsed@.words =~= Seq::empty());
        assert(parsed@.flags =~= Seq::empty());
        assert(parsed@.options =~= Seq::empty());
        assert(state_view(parsed, listener) == nothing_read());
    }
    while i < args.len()
        invariant
            i <= args.len(),
            flags == groups_view(valid_flags@),
            opts == groups_view(valid_opts@),
            wanted == parse_from(nothing_read(), names(args@), flags, opts),
            wanted == parse_from(
                state_view(parsed, listener),
                names(args@).skip(i as int),
                flags,
                opts,
            ),
        decreases args.len() - i,
    {
        let ghost state = state_view(parsed, listener);
        proof {
            assert(names(args@).skip(i as int).len() > 0);
            assert(names(args@).skip(i as int)[0] == args@[i as int]@);
            assert(names(args@).skip(i as int).skip(1) =~= names(args@).skip(i + 1));
            assert(wanted == (match take_arg(state, args@[i as int]@, flags, opts) {
                Ok(next) => parse_from(next, names(args@).skip(i + 1), flags, opts),
                Err(complaint) => Err(complaint),
            }));
        }
        match read_arg(&mut parsed, &mut listener, &args[i], valid_flags, valid_opts) {
            Ok(_) => {},
            Err(complaint) => {
                return Err(complaint);
            },
        }
        i = i + 1;
    }
    assert(names(args@).skip(i as int).len() == 0);
    if !listener.as_str().is_empty() {
        let mut text = "option '".to_owned();
        vstd::string::StringExecFns::append(&mut text, listener.as_str());
        vstd::string::StringExecFns::append(&mut text, "' requires a value");
        return Err(text);
    }
    Ok(parsed)
}

} // verus!
