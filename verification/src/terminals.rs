//! Which terminal to pop out, and where to find it.
//!
//! Each terminal has a raw pipe that is named after it. So the names of the
//! pipes that exist tell which terminals there are.

use crate::text_order::insert_in_order;
use vstd::prelude::*;
use vstd::utf8::*;

verus! {

/// Where the names of pipes stand.
pub const PIPE_NAMESPACE: &'static str = "\\\\.\\pipe\\";

/// What the name of a raw pipe begins with, in front of the terminal's id.
pub const RAW_PIPE_PREFIX: &'static str = "termhost-raw-";

/// The path of a terminal's raw pipe.
pub open spec fn pipe_path(id: Seq<char>) -> Seq<char> {
    PIPE_NAMESPACE@ + RAW_PIPE_PREFIX@ + id
}

/// The path of a terminal's raw pipe.
pub fn raw_pipe_path(id: &str) -> (path: String)
    ensures
        path@ == pipe_path(id@),
{
    let mut path: String = PIPE_NAMESPACE.to_owned();
    path.append(RAW_PIPE_PREFIX);
    path.append(id);
    path
}

/// The id of the terminal whose raw pipe has this name, if it is a raw pipe.
pub open spec fn id_in(name: Seq<char>) -> Option<Seq<char>> {
    if RAW_PIPE_PREFIX@.is_prefix_of(name) {
        Some(name.skip(RAW_PIPE_PREFIX@.len() as int))
    } else {
        None
    }
}

/// The ids of the terminals whose raw pipes are among `names`, in the order of the names.
pub open spec fn ids_among(names: Seq<Seq<char>>) -> Seq<Seq<char>>
    decreases names.len(),
{
    if names.len() == 0 {
        seq![]
    } else {
        let ids = ids_among(names.drop_last());
        match id_in(names.last()) {
            Some(id) => ids.push(id),
            None => ids,
        }
    }
}

/// The id of the terminal whose raw pipe has this name, if it is a raw pipe.
pub fn terminal_id(name: &str) -> (id: Option<String>)
    ensures
        match id_in(name@) {
            Some(text) => id matches Some(i) && i@ == text,
            None => id is None,
        },
{
    let len: usize = name.unicode_len();
    let front: usize = RAW_PIPE_PREFIX.unicode_len();
    if len < front {
        return None;
    }
    if name.substring_char(0, front).to_owned() == RAW_PIPE_PREFIX.to_owned() {
        assert(name@.skip(front as int) =~= name@.subrange(front as int, len as int));
        Some(name.substring_char(front, len).to_owned())
    } else {
        None
    }
}

/// The ids of the terminals that can be popped out, in order, where `names` are
/// the names of all pipes.
pub fn list_terminals(names: &Vec<String>) -> (ids: Vec<String>)
    ensures
        crate::text_order::in_order(crate::text_order::texts(ids@)),
        crate::text_order::texts(ids@).to_multiset() == ids_among(
            crate::text_order::texts(names@),
        ).to_multiset(),
{
    let ghost all = crate::text_order::texts(names@);
    let mut ids: Vec<String> = Vec::new();
    let mut i: usize = 0;
    assert(crate::text_order::texts(ids@) =~= ids_among(all.take(0)));
    while i < names.len()
        invariant
            i <= names@.len(),
            all == crate::text_order::texts(names@),
            crate::text_order::in_order(crate::text_order::texts(ids@)),
            crate::text_order::texts(ids@).to_multiset() == ids_among(
                all.take(i as int),
            ).to_multiset(),
        decreases names@.len() - i,
    {
        assert(all.take(i + 1).drop_last() =~= all.take(i as int));
        match terminal_id(names[i].as_str()) {
            Some(id) => {
                proof {
                    vstd::seq_lib::to_multiset_build(ids_among(all.take(i as int)), id@);
                }
                insert_in_order(&mut ids, id);
            },
            None => {},
        }
        i = i + 1;
    }
    assert(all.take(i as int) =~= all);
    ids
}

/// The characters that Unicode calls white space.
pub open spec fn is_white_space(c: char) -> bool {
    let n = c as u32;
    ||| 0x09 <= n <= 0x0D
    ||| n == 0x20
    ||| n == 0x85
    ||| n == 0xA0
    ||| n == 0x1680
    ||| 0x2000 <= n <= 0x200A
    ||| n == 0x2028
    ||| n == 0x2029
    ||| n == 0x202F
    ||| n == 0x205F
    ||| n == 0x3000
}

/// Whether Unicode calls a character white space.
pub fn white_space(c: char) -> (r: bool)
    ensures
        r == is_white_space(c),
{
    let n: u32 = c as u32;
    (0x09 <= n && n <= 0x0D) || n == 0x20 || n == 0x85 || n == 0xA0 || n == 0x1680 || (0x2000 <= n
        && n <= 0x200A) || n == 0x2028 || n == 0x2029 || n == 0x202F || n == 0x205F || n == 0x3000
}

/// `text` without the white space at its ends.
pub open spec fn trimmed(text: Seq<char>) -> Seq<char>
    decreases text.len(),
{
    if text.len() == 0 {
        text
    } else if is_white_space(text.first()) {
        trimmed(text.drop_first())
    } else if is_white_space(text.last()) {
        trimmed(text.drop_last())
    } else {
        text
    }
}

/// `text` without the white space at its ends.
pub fn trim(text: &str) -> (r: String)
    ensures
        r@ == trimmed(text@),
{
    let len: usize = text.unicode_len();
    let mut start: usize = 0;
    assert(text@.subrange(0, len as int) =~= text@);
    while start < len && white_space(text.get_char(start))
        invariant
            len == text@.len(),
            start <= len,
            trimmed(text@.subrange(start as int, len as int)) == trimmed(text@),
        decreases len - start,
    {
        assert(text@.subrange(start as int, len as int).drop_first() =~= text@.subrange(
            start + 1,
            len as int,
        ));
        start = start + 1;
    }
    let mut end: usize = len;
    while start < end && white_space(text.get_char(end - 1))
        invariant
            len == text@.len(),
            start <= end <= len,
            start < end ==> !is_white_space(text@[start as int]),
            trimmed(text@.subrange(start as int, end as int)) == trimmed(text@),
        decreases end,
    {
        assert(text@.subrange(start as int, end as int).drop_last() =~= text@.subrange(
            start as int,
            end - 1,
        ));
        end = end - 1;
    }
    text.substring_char(start, end).to_owned()
}

/// The terminal that is asked for: the one that the environment names, else the
/// one that the first argument names. Names that are empty do not count, nor
/// does an argument that is an option.
pub open spec fn wanted_id(env: Option<Seq<char>>, arg: Option<Seq<char>>) -> Option<Seq<char>> {
    if env is Some && trimmed(env->0).len() > 0 {
        Some(trimmed(env->0))
    } else if arg is Some && trimmed(arg->0).len() > 0 && trimmed(arg->0)[0] != '-' {
        Some(trimmed(arg->0))
    } else {
        None
    }
}

/// The terminal that is asked for by the environment variable
/// `TERMHOST_TERM_ID`, or by the first argument.
pub fn resolve_term_id(env: Option<&str>, arg: Option<&str>) -> (id: Option<String>)
    ensures
        match wanted_id(
            match env {
                Some(v) => Some(v@),
                None => None,
            },
            match arg {
                Some(a) => Some(a@),
                None => None,
            },
        ) {
            Some(text) => id matches Some(i) && i@ == text,
            None => id is None,
        },
{
    if let Some(v) = env {
        let name: String = trim(v);
        if !name.as_str().is_empty() {
            return Some(name);
        }
    }
    if let Some(a) = arg {
        let name: String = trim(a);
        if !name.as_str().is_empty() && name.as_str().get_char(0) != '-' {
            return Some(name);
        }
    }
    None
}

/// Each id on a line of its own, set in by two spaces.
pub open spec fn id_lines(ids: Seq<Seq<char>>) -> Seq<Seq<char>> {
    Seq::new(ids.len(), |i: int| "  "@ + ids[i])
}

/// Appends a line for each id.
fn push_id_lines(lines: &mut Vec<String>, ids: &Vec<String>)
    ensures
        crate::text_order::texts(final(lines)@) == crate::text_order::texts(old(lines)@) + id_lines(
            crate::text_order::texts(ids@),
        ),
{
    let ghost added = id_lines(crate::text_order::texts(ids@));
    let mut i: usize = 0;
    assert(crate::text_order::texts(lines@) =~= crate::text_order::texts(old(lines)@) + added.take(
        0,
    ));
    while i < ids.len()
        invariant
            i <= ids@.len(),
            added == id_lines(crate::text_order::texts(ids@)),
            crate::text_order::texts(lines@) == crate::text_order::texts(old(lines)@) + added.take(
                i as int,
            ),
        decreases ids@.len() - i,
    {
        let mut line: String = "  ".to_owned();
        line.append(ids[i].as_str());
        let ghost before = lines@;
        let ghost text = line@;
        lines.push(line);
        proof {
            assert(text == added[i as int]);
            assert(crate::text_order::texts(lines@) =~= crate::text_order::texts(before).push(
                text,
            ));
            assert(added.take(i + 1) =~= added.take(i as int).push(text));
            assert(crate::text_order::texts(lines@) =~= crate::text_order::texts(old(lines)@)
                + added.take(i + 1));
        }
        i = i + 1;
    }
    assert(added.take(i as int) =~= added);
}

/// What is said where no terminal was asked for: which ones there are, and how
/// to ask for one.
pub open spec fn no_id_text(ids: Seq<Seq<char>>) -> Seq<Seq<char>> {
    (if ids.len() == 0 {
        seq![
            "termhost-bridge: no terminal id given, and no terminal is currently running."@,
        ]
    } else {
        seq!["termhost-bridge: no terminal id given. Terminals you can pop out:"@] + id_lines(ids)
    }) + seq![
        ""@,
        "usage: termhost-bridge <terminal-id>"@,
        "   or: set TERMHOST_TERM_ID=<terminal-id> and run it without arguments"@,
    ]
}

/// The lines that are said where no terminal was asked for.
pub fn no_id_report(ids: &Vec<String>) -> (lines: Vec<String>)
    ensures
        crate::text_order::texts(lines@) == no_id_text(crate::text_order::texts(ids@)),
{
    let mut lines: Vec<String> = Vec::new();
    if ids.len() == 0 {
        lines.push(
            "termhost-bridge: no terminal id given, and no terminal is currently running.".to_owned(),
        );
    } else {
        lines.push(
            "termhost-bridge: no terminal id given. Terminals you can pop out:".to_owned(),
        );
        push_id_lines(&mut lines, ids);
    }
    let ghost first = crate::text_order::texts(lines@);
    proof {
        let ids = crate::text_order::texts(ids@);
        assert(first =~= if ids.len() == 0 {
            seq![
                "termhost-bridge: no terminal id given, and no terminal is currently running."@,
            ]
        } else {
            seq!["termhost-bridge: no terminal id given. Terminals you can pop out:"@] + id_lines(
                ids,
            )
        });
    }
    lines.push("".to_owned());
    lines.push("usage: termhost-bridge <terminal-id>".to_owned());
    lines.push(
        "   or: set TERMHOST_TERM_ID=<terminal-id> and run it without arguments".to_owned(),
    );
    assert(crate::text_order::texts(lines@) =~= first + seq![
        ""@,
        "usage: termhost-bridge <terminal-id>"@,
        "   or: set TERMHOST_TERM_ID=<terminal-id> and run it without arguments"@,
    ]);
    lines
}

/// What is said where a terminal's pipe cannot be opened: why, and which
/// terminals there are.
pub open spec fn cannot_open_text(
    id: Seq<char>,
    error: Seq<char>,
    ids: Seq<Seq<char>>,
) -> Seq<Seq<char>> {
    seq![
        "termhost-bridge: cannot open "@ + pipe_path(id) + ": "@ + error,
        "(no such terminal, or another window already holds it - the raw pipe serves one client at a time)"@,
    ] + (if ids.len() == 0 {
        seq!["currently no terminal is running"@]
    } else {
        seq!["available terminals:"@] + id_lines(ids)
    })
}

/// The lines that are said where a terminal's pipe cannot be opened.
pub fn cannot_open_report(id: &str, error: &str, ids: &Vec<String>) -> (lines: Vec<String>)
    ensures
        crate::text_order::texts(lines@) == cannot_open_text(
            id@,
            error@,
            crate::text_order::texts(ids@),
        ),
{
    let mut first: String = "termhost-bridge: cannot open ".to_owned();
    first.append(raw_pipe_path(id).as_str());
    first.append(": ");
    first.append(error);
    let mut lines: Vec<String> = Vec::new();
    lines.push(first);
    lines.push(
        "(no such terminal, or another window already holds it - the raw pipe serves one client at a time)".to_owned(),
    );
    if ids.len() == 0 {
        lines.push("currently no terminal is running".to_owned());
    } else {
        lines.push("available terminals:".to_owned());
        push_id_lines(&mut lines, ids);
    }
    assert(crate::text_order::texts(lines@) =~= cannot_open_text(
        id@,
        error@,
        crate::text_order::texts(ids@),
    ));
    lines
}

/// The name of the pipe that is opened for a terminal is one that the list of
/// terminals finds that terminal by; and the terminal that the list finds by a
/// name is opened under that name.
pub proof fn listed_terminals_can_be_opened(id: Seq<char>, name: Seq<char>)
    ensures
        pipe_path(id) == PIPE_NAMESPACE@ + (RAW_PIPE_PREFIX@ + id),
        id_in(RAW_PIPE_PREFIX@ + id) == Some(id),
        id_in(name) matches Some(i) ==> pipe_path(i) == PIPE_NAMESPACE@ + name,
{
    let own = RAW_PIPE_PREFIX@ + id;
    assert(pipe_path(id) =~= PIPE_NAMESPACE@ + own);
    assert(own.subrange(0, RAW_PIPE_PREFIX@.len() as int) =~= RAW_PIPE_PREFIX@);
    assert(own.skip(RAW_PIPE_PREFIX@.len() as int) =~= id);
    if let Some(i) = id_in(name) {
        assert(RAW_PIPE_PREFIX@ + i =~= name) by {
            assert(name.subrange(0, RAW_PIPE_PREFIX@.len() as int) =~= RAW_PIPE_PREFIX@);
            assert(name =~= name.subrange(0, RAW_PIPE_PREFIX@.len() as int) + i);
        }
        assert(pipe_path(i) =~= PIPE_NAMESPACE@ + (RAW_PIPE_PREFIX@ + i));
    }
}

/// The environment goes before the argument, and the argument counts where the
/// environment says nothing.
pub proof fn environment_comes_first(env: Option<Seq<char>>, arg: Option<Seq<char>>)
    ensures
        env matches Some(v) ==> trimmed(v).len() > 0 ==> wanted_id(env, arg) == Some(trimmed(v)),
        (env matches Some(v) ==> trimmed(v).len() == 0) ==> wanted_id(env, arg) == wanted_id(
            None,
            arg,
        ),
{
}

/// The terminal that is asked for has a name, without white space at its ends.
pub proof fn wanted_ids_are_names(env: Option<Seq<char>>, arg: Option<Seq<char>>)
    requires
        wanted_id(env, arg) is Some,
    ensures
        ({
            let id = wanted_id(env, arg)->0;
            &&& id.len() > 0
            &&& !is_white_space(id.first())
            &&& !is_white_space(id.last())
            &&& trimmed(id) == id
        }),
{
    if env is Some {
        lemma_trimmed(env->0);
    }
    if arg is Some {
        lemma_trimmed(arg->0);
    }
}

/// The reports are ASCII, so far as the ids in them and the system's words for
/// an error are: the console may be set to another code page than UTF-8.
pub proof fn reports_are_ascii(id: Seq<char>, error: Seq<char>, ids: Seq<Seq<char>>, i: int)
    requires
        is_ascii_chars(id),
        is_ascii_chars(error),
        forall|k: int| 0 <= k < ids.len() ==> is_ascii_chars(#[trigger] ids[k]),
    ensures
        0 <= i < no_id_text(ids).len() ==> is_ascii_chars(no_id_text(ids)[i]),
        0 <= i < cannot_open_text(id, error, ids).len() ==> is_ascii_chars(
            cannot_open_text(id, error, ids)[i],
        ),
{
    reveal_strlit("  ");
    assert forall|k: int| 0 <= k < ids.len() implies is_ascii_chars(
        #[trigger] id_lines(ids)[k],
    ) by {
        assert(id_lines(ids)[k] == "  "@ + ids[k]);
    }
    lemma_no_id_words_are_ascii();
    lemma_cannot_open_words_are_ascii();
}

proof fn lemma_no_id_words_are_ascii()
    ensures
        is_ascii_chars(
            "termhost-bridge: no terminal id given, and no terminal is currently running."@,
        ),
        is_ascii_chars("termhost-bridge: no terminal id given. Terminals you can pop out:"@),
        is_ascii_chars(""@),
        is_ascii_chars("usage: termhost-bridge <terminal-id>"@),
        is_ascii_chars("   or: set TERMHOST_TERM_ID=<terminal-id> and run it without arguments"@),
{
    reveal_strlit("termhost-bridge: no terminal id given, and no terminal is currently running.");
    reveal_strlit("termhost-bridge: no terminal id given. Terminals you can pop out:");
    reveal_strlit("");
    reveal_strlit("usage: termhost-bridge <terminal-id>");
    reveal_strlit("   or: set TERMHOST_TERM_ID=<terminal-id> and run it without arguments");
}

proof fn lemma_cannot_open_words_are_ascii()
    ensures
        is_ascii_chars("termhost-bridge: cannot open "@),
        is_ascii_chars(PIPE_NAMESPACE@),
        is_ascii_chars(RAW_PIPE_PREFIX@),
        is_ascii_chars(": "@),
        is_ascii_chars(
            "(no such terminal, or another window already holds it - the raw pipe serves one client at a time)"@,
        ),
        is_ascii_chars("currently no terminal is running"@),
        is_ascii_chars("available terminals:"@),
{
    reveal_strlit("termhost-bridge: cannot open ");
    reveal_strlit("\\\\.\\pipe\\");
    reveal_strlit("termhost-raw-");
    reveal_strlit(": ");
    reveal_strlit(
        "(no such terminal, or another window already holds it - the raw pipe serves one client at a time)",
    );
    reveal_strlit("currently no terminal is running");
    reveal_strlit("available terminals:");
}

proof fn lemma_trimmed(text: Seq<char>)
    ensures
        trimmed(text).len() > 0 ==> !is_white_space(trimmed(text).first()) && !is_white_space(
            trimmed(text).last(),
        ),
    decreases text.len(),
{
    if text.len() > 0 {
        lemma_trimmed(text.drop_first());
        lemma_trimmed(text.drop_last());
    }
}

/// A terminal is listed as often as its raw pipe is among the names, whatever else is
/// among them and however many they are. So all are listed, and no others.
pub proof fn every_raw_pipe_is_listed(names: Seq<Seq<char>>, id: Seq<char>)
    ensures
        ids_among(names).to_multiset().count(id) == names.to_multiset().count(
            RAW_PIPE_PREFIX@ + id,
        ),
    decreases names.len(),
{
    broadcast use vstd::multiset::group_multiset_axioms;

    if names.len() == 0 {
        vstd::seq_lib::to_multiset_len(names);
        vstd::seq_lib::to_multiset_len(ids_among(names));
    } else {
        let earlier = names.drop_last();
        let name = names.last();
        every_raw_pipe_is_listed(earlier, id);
        vstd::seq_lib::to_multiset_build(earlier, name);
        assert(earlier.push(name) =~= names);
        listed_terminals_can_be_opened(id, name);
        if let Some(i) = id_in(name) {
            vstd::seq_lib::to_multiset_build(ids_among(earlier), i);
            assert(RAW_PIPE_PREFIX@ + i =~= name) by {
                assert(name.subrange(0, RAW_PIPE_PREFIX@.len() as int) =~= RAW_PIPE_PREFIX@);
            }
        }
    }
}

/// Trimming takes the white space at both ends off, all of it and nothing else: what
/// stands between, which neither begins nor ends with white space, is left as it is.
pub proof fn trimming_leaves_the_middle(front: Seq<char>, middle: Seq<char>, back: Seq<char>)
    requires
        forall|i: int| 0 <= i < front.len() ==> is_white_space(#[trigger] front[i]),
        forall|i: int| 0 <= i < back.len() ==> is_white_space(#[trigger] back[i]),
        middle.len() > 0 ==> !is_white_space(middle.first()) && !is_white_space(middle.last()),
    ensures
        trimmed(front + middle + back) == middle,
    decreases front.len() + back.len(),
{
    let text = front + middle + back;
    if front.len() > 0 {
        assert(text.first() == front[0]);
        assert(text.drop_first() =~= front.drop_first() + middle + back);
        assert forall|i: int| 0 <= i < front.len() - 1 implies is_white_space(
            #[trigger] front.drop_first()[i],
        ) by {
            assert(front.drop_first()[i] == front[i + 1]);
        }
        trimming_leaves_the_middle(front.drop_first(), middle, back);
    } else if back.len() > 0 && middle.len() > 0 {
        assert(text.first() == middle.first());
        assert(text.last() == back[back.len() - 1]);
        assert(text.drop_last() =~= front + middle + back.drop_last());
        trimming_leaves_the_middle(front, middle, back.drop_last());
    } else if back.len() > 0 {
        assert(text =~= back);
        assert(text.first() == back[0]);
        assert(text.drop_first() =~= front + middle + back.drop_first());
        assert forall|i: int| 0 <= i < back.len() - 1 implies is_white_space(
            #[trigger] back.drop_first()[i],
        ) by {
            assert(back.drop_first()[i] == back[i + 1]);
        }
        trimming_leaves_the_middle(front, middle, back.drop_first());
    } else {
        assert(text =~= middle);
    }
}

/// Without a name in the environment, whatever the argument says names the terminal,
/// unless it is an option or says nothing.
pub proof fn the_argument_comes_second(arg: Seq<char>)
    ensures
        ({
            let name = trimmed(arg);
            if name.len() > 0 && name[0] != '-' {
                wanted_id(None, Some(arg)) == Some(name)
            } else {
                wanted_id(None, Some(arg)) is None
            }
        }),
        wanted_id(None, None) is None,
{
}

/// Where no terminal was asked for, all terminals there are are named, each on a line of
/// its own and in their order, or it is said that there is none. How to ask for one is
/// said last, in any case.
pub proof fn all_terminals_are_offered(ids: Seq<Seq<char>>, i: int)
    requires
        0 <= i,
    ensures
        ({
            let text = no_id_text(ids);
            let n = ids.len() as int;
            &&& text.len() == n + 4
            &&& n == 0 ==> text[0]
                == "termhost-bridge: no terminal id given, and no terminal is currently running."@
            &&& n > 0 ==> text[0]
                == "termhost-bridge: no terminal id given. Terminals you can pop out:"@
            &&& i < n ==> text[i + 1] == "  "@ + ids[i]
            &&& text[n + 1] == ""@
            &&& text[n + 2] == "usage: termhost-bridge <terminal-id>"@
            &&& text[n + 3]
                == "   or: set TERMHOST_TERM_ID=<terminal-id> and run it without arguments"@
        }),
{
}

/// Where a pipe cannot be opened, the report gives its path and the system's words for
/// the error, and names all terminals there are, each on a line of its own and in their
/// order; or it says that there is none.
pub proof fn the_report_says_why_and_what_else(
    id: Seq<char>,
    error: Seq<char>,
    ids: Seq<Seq<char>>,
    i: int,
)
    requires
        0 <= i,
    ensures
        ({
            let text = cannot_open_text(id, error, ids);
            let n = ids.len() as int;
            &&& text[0] == "termhost-bridge: cannot open "@ + (PIPE_NAMESPACE@ + RAW_PIPE_PREFIX@
                + id) + ": "@ + error
            &&& text[1]
                == "(no such terminal, or another window already holds it - the raw pipe serves one client at a time)"@
            &&& n == 0 ==> text.len() == 3 && text[2] == "currently no terminal is running"@
            &&& n > 0 ==> text.len() == n + 3 && text[2] == "available terminals:"@
            &&& i < n ==> text[i + 3] == "  "@ + ids[i]
        }),
{
}

} // verus!
