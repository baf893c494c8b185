//! Command-line pieces of the compositor that do not depend on the argument parser itself:
//! completion shells, and splitting a batch of actions (`niri msg actions`) into labelled word
//! lists, one per action, from arguments or from stdin lines.

use vstd::prelude::*;
use vstd::string::StrSliceExecFns;
use vstd::string::StringExecFns;

use crate::text::{chars_of, decimal, is_blank, is_whitespace, push_decimal, str_is_blank};

verus! {

/// Shells that completions can be generated for.
#[derive(Clone, Copy, Debug, PartialEq, Eq, Structural)]
pub enum CompletionShell {
    Bash,
    Elvish,
    Fish,
    PowerShell,
    Zsh,
    Nushell,
}

/// The words `shlex::split` lexes a line into, or `None` when it refuses the line.
pub uninterp spec fn shlex_words(line: Seq<char>) -> Option<Seq<Seq<char>>>;

/// `shlex::split`: splits a line into words as a POSIX shell would (quotes, escapes), or
/// returns `None` for unbalanced quotes or a trailing escape. The contract ties the result to
/// the line's characters through `shlex_words`, and says nothing more of how words are formed.
#[verifier::external_body]
fn shlex_split(line: &str) -> (r: Option<Vec<String>>)
    ensures
        match r {
            Some(v) => shlex_words(line@) == Some(v@.map_values(|w: String| w@)),
            None => shlex_words(line@) is None,
        },
{
    shlex::split(line)
}

/// `i` is the position of the first newline in `s`.
pub open spec fn first_newline(s: Seq<char>, i: int) -> bool {
    &&& 0 <= i < s.len()
    &&& s[i] == '\n'
    &&& forall|j: int| 0 <= j < i ==> #[trigger] s[j] != '\n'
}

/// A line without the `\r` of a `\r\n` ending.
pub open spec fn strip_cr(l: Seq<char>) -> Seq<char> {
    if l.len() > 0 && l.last() == '\r' {
        l.drop_last()
    } else {
        l
    }
}

/// The lines of `s`, as `str::lines` gives them: split at `\n`, a `\r` before the `\n` dropped,
/// and no empty line after a final `\n`.
pub open spec fn split_lines(s: Seq<char>) -> Seq<Seq<char>>
    decreases s.len(),
{
    if s.len() == 0 {
        seq![]
    } else if exists|i: int| first_newline(s, i) {
        let i = choose|i: int| first_newline(s, i);
        seq![strip_cr(s.subrange(0, i))] + split_lines(s.subrange(i + 1, s.len() as int))
    } else {
        seq![s]
    }
}

/// The labelled stdin sources among the first `n` lines: every line that is not blank, labelled
/// with its 1-based line number.
pub open spec fn stdin_sources(lines: Seq<Seq<char>>, n: int) -> Seq<(Seq<char>, Seq<char>)>
    decreases n,
{
    if n <= 0 {
        seq![]
    } else if is_blank(lines[n - 1]) {
        stdin_sources(lines, n - 1)
    } else {
        stdin_sources(lines, n - 1).push(("stdin line "@ + decimal(n as nat), lines[n - 1]))
    }
}

/// The labelled argument sources: every argument, labelled with its 1-based position.
pub open spec fn arg_sources(args: Seq<Seq<char>>) -> Seq<(Seq<char>, Seq<char>)> {
    Seq::new(args.len(), |i: int| ("argument "@ + decimal((i + 1) as nat), args[i]))
}

/// Where the actions come from: the arguments, or the stdin lines when there are none.
pub open spec fn action_sources(args: Seq<Seq<char>>, stdin: Seq<char>) -> Seq<(Seq<char>, Seq<char>)> {
    if args.len() == 0 {
        let lines = split_lines(stdin);
        stdin_sources(lines, lines.len() as int)
    } else {
        arg_sources(args)
    }
}

/// A lexing result that gives an action: the line lexed into at least one word.
pub open spec fn lexed_ok(l: Option<Seq<Seq<char>>>) -> bool {
    l matches Some(w) && w.len() > 0
}

/// `k` is the first lexing result that does not give an action.
pub open spec fn first_bad(lexed: Seq<Option<Seq<Seq<char>>>>, k: int) -> bool {
    &&& 0 <= k < lexed.len()
    &&& !lexed_ok(lexed[k])
    &&& forall|j: int| 0 <= j < k ==> #[trigger] lexed_ok(lexed[j])
}

/// The outcome, told by position, for the lexing results of a batch's sources.
pub enum SplitOutcome {
    /// The words of each action, in order.
    Words(Seq<Seq<Seq<char>>>),
    NoActions,
    /// The text at this position has unbalanced quotes.
    Unbalanced(int),
    /// The text at this position has no words.
    Empty(int),
}

/// No sources is an error; otherwise the first result that does not give an action decides the
/// error (unbalanced quotes when the line did not lex, no words when it lexed to none);
/// otherwise each source's words.
pub open spec fn lexed_outcome(lexed: Seq<Option<Seq<Seq<char>>>>) -> SplitOutcome {
    if lexed.len() == 0 {
        SplitOutcome::NoActions
    } else if exists|k: int| first_bad(lexed, k) {
        let k = choose|k: int| first_bad(lexed, k);
        if lexed[k] is None {
            SplitOutcome::Unbalanced(k)
        } else {
            SplitOutcome::Empty(k)
        }
    } else {
        SplitOutcome::Words(lexed.map_values(|l: Option<Seq<Seq<char>>>| l->0))
    }
}

/// The outcome for a sequence of source texts, each lexed by `shlex`.
pub open spec fn split_outcome(texts: Seq<Seq<char>>) -> SplitOutcome {
    lexed_outcome(texts.map_values(|t: Seq<char>| shlex_words(t)))
}

/// The texts of labelled sources.
pub open spec fn texts_of(sources: Seq<(Seq<char>, Seq<char>)>) -> Seq<Seq<char>> {
    sources.map_values(|s: (Seq<char>, Seq<char>)| s.1)
}

/// One action's words, with where they came from.
#[derive(Debug, Clone, PartialEq, Eq)]
pub struct ActionWords {
    pub label: String,
    pub words: Vec<String>,
}

/// Why a batch of actions is refused.
#[derive(Debug, Clone, PartialEq, Eq)]
pub enum ActionsError {
    /// Neither arguments nor non-blank stdin lines were given.
    NoActions,
    /// The source at `label` has unbalanced quotes.
    UnbalancedQuotes { label: String, text: String },
    /// The source at `label` has no words.
    EmptyAction { label: String },
}

/// The words of a list of strings.
pub open spec fn words_view(v: Seq<String>) -> Seq<Seq<char>> {
    v.map_values(|w: String| w@)
}

/// The result agrees with an outcome for sources with the given labels and texts.
pub open spec fn outcome_matches(
    labels: Seq<Seq<char>>,
    texts: Seq<Seq<char>>,
    outcome: SplitOutcome,
    r: Result<Vec<ActionWords>, ActionsError>,
) -> bool {
    match outcome {
        SplitOutcome::NoActions => r matches Err(ActionsError::NoActions),
        SplitOutcome::Unbalanced(k) => r matches Err(ActionsError::UnbalancedQuotes { label, text })
            && label@ == labels[k] && text@ == texts[k],
        SplitOutcome::Empty(k) => r matches Err(ActionsError::EmptyAction { label }) && label@
            == labels[k],
        SplitOutcome::Words(ws) => r matches Ok(v) && v@.len() == labels.len() && forall|i: int|
            0 <= i < labels.len() ==> (#[trigger] v@[i]).label@ == labels[i] && words_view(
                v@[i].words@,
            ) == ws[i],
    }
}

/// The labels of labelled sources.
pub open spec fn labels_of(sources: Seq<(Seq<char>, Seq<char>)>) -> Seq<Seq<char>> {
    sources.map_values(|s: (Seq<char>, Seq<char>)| s.0)
}

/// The result of splitting matches the outcome for the given labelled sources.
pub open spec fn split_matches(
    sources: Seq<(Seq<char>, Seq<char>)>,
    r: Result<Vec<ActionWords>, ActionsError>,
) -> bool {
    outcome_matches(labels_of(sources), texts_of(sources), split_outcome(texts_of(sources)), r)
}

/// A lexing result as plain values.
pub open spec fn lexed_view(l: Option<Vec<String>>) -> Option<Seq<Seq<char>>> {
    match l {
        Some(v) => Some(words_view(v@)),
        None => None,
    }
}

/// One lexed source: its label, its text and what lexing it gave.
pub type LexedSource = (String, String, Option<Vec<String>>);

pub open spec fn lexed_labels(e: Seq<LexedSource>) -> Seq<Seq<char>> {
    e.map_values(|x: LexedSource| x.0@)
}

pub open spec fn lexed_texts(e: Seq<LexedSource>) -> Seq<Seq<char>> {
    e.map_values(|x: LexedSource| x.1@)
}

pub open spec fn lexed_results(e: Seq<LexedSource>) -> Seq<Option<Seq<Seq<char>>>> {
    e.map_values(|x: LexedSource| lexed_view(x.2))
}

/// Turns the lexed sources of a batch into its actions: the words of each source, labelled, or
/// the error of the first source that did not lex (unbalanced quotes) or lexed to no words (an
/// empty action), or `NoActions` when there are no sources.
#[verifier::loop_isolation(false)]
pub fn actions_from_lexed(entries: Vec<LexedSource>) -> (r: Result<Vec<ActionWords>, ActionsError>)
    ensures
        outcome_matches(
            lexed_labels(entries@),
            lexed_texts(entries@),
            lexed_outcome(lexed_results(entries@)),
            r,
        ),
{
    let ghost labels = lexed_labels(entries@);
    let ghost texts = lexed_texts(entries@);
    let ghost lexed = lexed_results(entries@);
    if entries.len() == 0 {
        return Err(ActionsError::NoActions);
    }
    let n = entries.len();
    let mut out: Vec<ActionWords> = Vec::new();
    let mut rest = entries;
    let mut i: usize = 0;
    while i < n
        invariant
            n == labels.len(),
            n > 0,
            labels.len() == texts.len(),
            lexed.len() == labels.len(),
            i <= n,
            rest@.len() == n - i,
            forall|j: int|
                0 <= j < rest@.len() ==> lexed_view((#[trigger] rest@[j]).2) == lexed[n - rest@.len() + j]
                    && rest@[j].0@ == labels[n - rest@.len() + j] && rest@[j].1@ == texts[n
                    - rest@.len() + j],
            out@.len() == i,
            forall|j: int| 0 <= j < i ==> #[trigger] lexed_ok(lexed[j]),
            forall|j: int|
                0 <= j < i ==> (#[trigger] out@[j]).label@ == labels[j] && words_view(out@[j].words@)
                    == lexed[j]->0,
        decreases n - i,
    {
        let (label, text, words) = rest.remove(0);
        assert(lexed_view(words) == lexed[i as int]);
        assert(label@ == labels[i as int]);
        assert(text@ == texts[i as int]);
        match words {
            None => {
                proof {
                    assert(first_bad(lexed, i as int));
                    let k = choose|k: int| first_bad(lexed, k);
                    assert(k == i) by {
                        if k < i {
                            assert(lexed_ok(lexed[k]));
                        } else if k > i {
                            assert(lexed_ok(lexed[i as int]));
                        }
                    }
                    assert(lexed_outcome(lexed) == SplitOutcome::Unbalanced(i as int));
                }
                return Err(ActionsError::UnbalancedQuotes { label, text });
            },
            Some(words) => {
                if words.len() == 0 {
                    proof {
                        assert(words_view(words@).len() == 0);
                        assert(first_bad(lexed, i as int));
                        let k = choose|k: int| first_bad(lexed, k);
                        assert(k == i) by {
                            if k < i {
                                assert(lexed_ok(lexed[k]));
                            } else if k > i {
                                assert(lexed_ok(lexed[i as int]));
                            }
                        }
                        assert(lexed_outcome(lexed) == SplitOutcome::Empty(i as int));
                    }
                    return Err(ActionsError::EmptyAction { label });
                }
                assert(words_view(words@).len() > 0);
                out.push(ActionWords { label, words });
            },
        }
        i = i + 1;
    }
    proof {
        assert(!exists|k: int| first_bad(lexed, k)) by {
            if exists|k: int| first_bad(lexed, k) {
                let k = choose|k: int| first_bad(lexed, k);
                assert(lexed_ok(lexed[k]));
            }
        }
    }
    Ok(out)
}

/// Splits `s` into lines as `str::lines` does.
fn lines_of(s: &str) -> (lines: Vec<String>)
    ensures
        lines@.map_values(|l: String| l@) == split_lines(s@),
{
    let chars = chars_of(s);
    let n = chars.len();
    let mut lines: Vec<String> = Vec::new();
    let mut start: usize = 0;
    let mut pos: usize = 0;
    assert(s@.subrange(0, n as int) =~= s@);
    assert(lines@.map_values(|l: String| l@) + split_lines(s@) =~= split_lines(s@));
    while pos < n
        invariant
            chars@ == s@,
            n == s@.len(),
            start <= pos <= n,
            forall|j: int| start <= j < pos ==> #[trigger] s@[j] != '\n',
            lines@.map_values(|l: String| l@) + split_lines(s@.subrange(start as int, n as int))
                == split_lines(s@),
        decreases n - pos,
    {
        if chars[pos] == '\n' {
            let end = if pos > start && chars[pos - 1] == '\r' {
                pos - 1
            } else {
                pos
            };
            let line = s.substring_char(start, end).to_owned();
            proof {
                let rest = s@.subrange(start as int, n as int);
                let k = (pos - start) as int;
                assert(first_newline(rest, k));
                let c = choose|c: int| first_newline(rest, c);
                assert(c == k) by {
                    if c < k {
                        assert(rest[c] == s@[start + c]);
                    } else if c > k {
                        assert(rest[k] == '\n');
                    }
                }
                assert(rest.subrange(0, k) =~= s@.subrange(start as int, pos as int));
                assert(rest.subrange(k + 1, rest.len() as int) =~= s@.subrange(
                    pos + 1,
                    n as int,
                ));
                assert(line@ =~= strip_cr(s@.subrange(start as int, pos as int)));
                assert(split_lines(rest) == seq![line@] + split_lines(
                    s@.subrange(pos + 1, n as int),
                ));
            }
            let ghost before = lines@.map_values(|l: String| l@);
            lines.push(line);
            proof {
                assert(lines@.map_values(|l: String| l@) =~= before.push(line@));
                assert(before.push(line@) + split_lines(s@.subrange(pos + 1, n as int)) =~= before
                    + split_lines(s@.subrange(start as int, n as int)));
            }
            start = pos + 1;
        }
        pos = pos + 1;
    }
    if start < n {
        let line = s.substring_char(start, n).to_owned();
        proof {
            let rest = s@.subrange(start as int, n as int);
            assert(!exists|c: int| first_newline(rest, c)) by {
                if exists|c: int| first_newline(rest, c) {
                    let c = choose|c: int| first_newline(rest, c);
                    assert(rest[c] == s@[start + c]);
                }
            }
            assert(split_lines(rest) == seq![rest]);
            assert(line@ =~= rest);
        }
        let ghost before = lines@.map_values(|l: String| l@);
        lines.push(line);
        proof {
            assert(lines@.map_values(|l: String| l@) =~= before.push(line@));
            assert(before.push(line@) =~= before + split_lines(s@.subrange(start as int, n as int)));
        }
    } else {
        proof {
            assert(s@.subrange(start as int, n as int).len() == 0);
            assert(lines@.map_values(|l: String| l@) + Seq::<Seq<char>>::empty() =~= lines@.map_values(
                |l: String| l@,
            ));
        }
    }
    lines
}

/// `prefix` followed by `n` in decimal.
fn numbered(prefix: &str, n: u64) -> (s: String)
    ensures
        s@ == prefix@ + decimal(n as nat),
{
    let mut s = prefix.to_owned();
    push_decimal(&mut s, n);
    s
}

/// The labelled sources of a batch: the arguments, or the non-blank stdin lines when there are
/// no arguments.
fn sources_of(args: &[String], stdin: &str) -> (sources: Vec<(String, String)>)
    ensures
        sources@.map_values(|p: (String, String)| (p.0@, p.1@)) == action_sources(
            args@.map_values(|a: String| a@),
            stdin@,
        ),
{
    let ghost argv = args@.map_values(|a: String| a@);
    let mut sources: Vec<(String, String)> = Vec::new();
    if args.len() == 0 {
        let lines = lines_of(stdin);
        let ghost lv = lines@.map_values(|l: String| l@);
        let mut i: usize = 0;
        while i < lines.len()
            invariant
                i <= lines@.len(),
                lv == lines@.map_values(|l: String| l@),
                sources@.map_values(|p: (String, String)| (p.0@, p.1@)) == stdin_sources(
                    lv,
                    i as int,
                ),
            decreases lines@.len() - i,
        {
            let ghost before = sources@;
            assert(lv[i as int] == lines@[i as int]@);
            if !str_is_blank(lines[i].as_str()) {
                let label = numbered("stdin line ", (i + 1) as u64);
                sources.push((label, lines[i].clone()));
                assert(sources@.map_values(|p: (String, String)| (p.0@, p.1@)) =~= before.map_values(
                    |p: (String, String)| (p.0@, p.1@),
                ).push(("stdin line "@ + decimal((i + 1) as nat), lv[i as int])));
            }
            i = i + 1;
        }
        assert(argv.len() == 0);
    } else {
        let mut i: usize = 0;
        while i < args.len()
            invariant
                i <= args@.len(),
                argv == args@.map_values(|a: String| a@),
                sources@.map_values(|p: (String, String)| (p.0@, p.1@)) == arg_sources(argv).take(
                    i as int,
                ),
            decreases args@.len() - i,
        {
            let ghost before = sources@;
            let label = numbered("argument ", (i + 1) as u64);
            let arg = args[i].clone();
            assert(argv[i as int] == args@[i as int]@);
            let ghost pair = (label@, arg@);
            assert(arg_sources(argv)[i as int] == pair);
            sources.push((label, arg));
            assert(sources@.map_values(|p: (String, String)| (p.0@, p.1@)) =~= before.map_values(
                |p: (String, String)| (p.0@, p.1@),
            ).push(pair));
            assert(arg_sources(argv).take(i + 1) =~= arg_sources(argv).take(i as int).push(pair));
            i = i + 1;
        }
        assert(arg_sources(argv).take(args@.len() as int) =~= arg_sources(argv));
    }
    sources
}

/// Splits a batch of actions, given as arguments or (with no arguments) as stdin lines, into
/// the words of each action, labelled with where it came from. Blank stdin lines are skipped.
/// Argument form and stdin form give the same words.
pub fn split_actions(args: &[String], stdin: &str) -> (r: Result<Vec<ActionWords>, ActionsError>)
    ensures
        split_matches(action_sources(args@.map_values(|a: String| a@), stdin@), r),
{
    let sources = sources_of(args, stdin);
    let ghost sv = sources@.map_values(|p: (String, String)| (p.0@, p.1@));
    let mut entries: Vec<LexedSource> = Vec::new();
    let mut i: usize = 0;
    while i < sources.len()
        invariant
            i <= sources@.len(),
            sv == sources@.map_values(|p: (String, String)| (p.0@, p.1@)),
            entries@.len() == i,
            forall|j: int|
                0 <= j < i ==> (#[trigger] entries@[j]).0@ == sv[j].0 && entries@[j].1@ == sv[j].1
                    && lexed_view(entries@[j].2) == shlex_words(sv[j].1),
        decreases sources@.len() - i,
    {
        let (label, text) = &sources[i];
        assert(sv[i as int] == (label@, text@));
        let words = shlex_split(text.as_str());
        entries.push((label.clone(), text.clone(), words));
        i = i + 1;
    }
    assert(lexed_labels(entries@) =~= labels_of(sv));
    assert(lexed_texts(entries@) =~= texts_of(sv));
    assert(lexed_results(entries@) =~= texts_of(sv).map_values(|t: Seq<char>| shlex_words(t)));
    actions_from_lexed(entries)
}

/// Lines joined into stdin text, each followed by a newline.
pub open spec fn join_lines(lines: Seq<Seq<char>>) -> Seq<char>
    decreases lines.len(),
{
    if lines.len() == 0 {
        seq![]
    } else {
        lines[0] + seq!['\n'] + join_lines(lines.drop_first())
    }
}

proof fn lemma_split_first_line(a: Seq<char>, rest: Seq<char>)
    requires
        !a.contains('\n'),
    ensures
        split_lines(a + seq!['\n'] + rest) == seq![strip_cr(a)] + split_lines(rest),
{
    let s = a + seq!['\n'] + rest;
    let k = a.len() as int;
    assert(s[k] == '\n');
    assert forall|j: int| 0 <= j < k implies #[trigger] s[j] != '\n' by {
        assert(s[j] == a[j]);
        if a[j] == '\n' {
            assert(a.contains('\n'));
        }
    }
    assert(first_newline(s, k));
    let c = choose|c: int| first_newline(s, c);
    assert(c == k) by {
        if c < k {
            assert(s[c] != '\n');
        } else if c > k {
            assert(s[k] != '\n');
        }
    }
    assert(s.subrange(0, k) =~= a);
    assert(s.subrange(k + 1, s.len() as int) =~= rest);
}

/// The lines of text that ends without a newline: the text itself, or none when it is empty.
pub open spec fn last_line(last: Seq<char>) -> Seq<Seq<char>> {
    if last.len() == 0 {
        seq![]
    } else {
        seq![last]
    }
}

proof fn lemma_split_open(lines: Seq<Seq<char>>, last: Seq<char>)
    requires
        forall|i: int| 0 <= i < lines.len() ==> !(#[trigger] lines[i]).contains('\n'),
        !last.contains('\n'),
    ensures
        split_lines(join_lines(lines) + last) == lines.map_values(|l: Seq<char>| strip_cr(l))
            + last_line(last),
    decreases lines.len(),
{
    if lines.len() == 0 {
        assert(join_lines(lines) + last =~= last);
        if last.len() > 0 {
            assert(!exists|i: int| first_newline(last, i)) by {
                if exists|i: int| first_newline(last, i) {
                    let i = choose|i: int| first_newline(last, i);
                    assert(last.contains('\n'));
                }
            }
        }
        assert(lines.map_values(|l: Seq<char>| strip_cr(l)) =~= Seq::<Seq<char>>::empty());
    } else {
        let rest = lines.drop_first();
        assert forall|i: int| 0 <= i < rest.len() implies !(#[trigger] rest[i]).contains('\n') by {
            assert(rest[i] == lines[i + 1]);
        }
        lemma_split_open(rest, last);
        assert(lines[0] + seq!['\n'] + join_lines(rest) + last =~= lines[0] + seq!['\n'] + (
        join_lines(rest) + last));
        assert(join_lines(lines) == lines[0] + seq!['\n'] + join_lines(rest));
        lemma_split_first_line(lines[0], join_lines(rest) + last);
        assert(lines.map_values(|l: Seq<char>| strip_cr(l)) =~= seq![strip_cr(lines[0])]
            + rest.map_values(|l: Seq<char>| strip_cr(l)));
    }
}

/// A line that carries an action reads back unchanged from stdin: no `\r` at its end.
pub open spec fn no_trailing_cr(l: Seq<char>) -> bool {
    !(l.len() > 0 && l.last() == '\r')
}

proof fn lemma_nonblank_strip(lines: Seq<Seq<char>>)
    requires
        forall|i: int| 0 <= i < lines.len() && !is_blank(#[trigger] lines[i]) ==> no_trailing_cr(
            lines[i],
        ),
    ensures
        nonblank(lines.map_values(|l: Seq<char>| strip_cr(l))) == nonblank(lines),
    decreases lines.len(),
{
    reveal(Seq::filter);
    let m = lines.map_values(|l: Seq<char>| strip_cr(l));
    if lines.len() > 0 {
        let init = lines.drop_last();
        assert forall|i: int| 0 <= i < init.len() && !is_blank(#[trigger] init[i]) implies no_trailing_cr(
            init[i],
        ) by {
            assert(init[i] == lines[i]);
        }
        lemma_nonblank_strip(init);
        assert(m.drop_last() =~= init.map_values(|l: Seq<char>| strip_cr(l)));
        let l = lines.last();
        assert(m.last() == strip_cr(l));
        if is_blank(l) {
            assert(is_blank(strip_cr(l))) by {
                assert forall|j: int| 0 <= j < strip_cr(l).len() implies is_whitespace(
                    #[trigger] strip_cr(l)[j],
                ) by {
                    assert(strip_cr(l)[j] == l[j]);
                }
            }
        } else {
            assert(no_trailing_cr(lines[lines.len() - 1]));
            assert(strip_cr(l) == l);
        }
    }
}

/// The non-blank lines of a list, in order.
pub open spec fn nonblank(lines: Seq<Seq<char>>) -> Seq<Seq<char>> {
    lines.filter(|l: Seq<char>| !is_blank(l))
}

proof fn lemma_stdin_texts(lines: Seq<Seq<char>>, n: int)
    requires
        0 <= n <= lines.len(),
    ensures
        texts_of(stdin_sources(lines, n)) == nonblank(lines.take(n)),
    decreases n,
{
    reveal(Seq::filter);
    if n == 0 {
        assert(lines.take(0).len() == 0);
    } else {
        lemma_stdin_texts(lines, n - 1);
        let prev = stdin_sources(lines, n - 1);
        assert(lines.take(n).drop_last() =~= lines.take(n - 1));
        assert(lines.take(n).last() == lines[n - 1]);
        if !is_blank(lines[n - 1]) {
            let pair = ("stdin line "@ + decimal(n as nat), lines[n - 1]);
            assert(texts_of(prev.push(pair)) =~= texts_of(prev).push(lines[n - 1]));
        }
    }
}

/// Argument form and stdin form give the same outcome: passing actions as arguments, or as the
/// lines of stdin text (with or without a final newline, and with any number of blank lines
/// anywhere among them, `\r\n` endings included), yields the same words or the same error at the
/// same action. The lines that carry actions must read back unchanged (no `\r` at their end), and
/// in order they must be the arguments.
pub proof fn lemma_args_and_stdin_agree(
    args: Seq<Seq<char>>,
    stdin: Seq<char>,
    lines: Seq<Seq<char>>,
    last: Seq<char>,
)
    requires
        args.len() > 0,
        forall|i: int| 0 <= i < lines.len() ==> !(#[trigger] lines[i]).contains('\n'),
        !last.contains('\n'),
        forall|i: int|
            0 <= i < lines.len() && !is_blank(#[trigger] lines[i]) ==> no_trailing_cr(lines[i]),
        nonblank(lines + last_line(last)) == args,
    ensures
        split_outcome(texts_of(action_sources(args, stdin))) == split_outcome(
            texts_of(action_sources(seq![], join_lines(lines) + last)),
        ),
{
    let pred = |l: Seq<char>| !is_blank(l);
    let split = lines.map_values(|l: Seq<char>| strip_cr(l)) + last_line(last);
    lemma_split_open(lines, last);
    lemma_nonblank_strip(lines);
    Seq::filter_distributes_over_add(lines.map_values(|l: Seq<char>| strip_cr(l)), last_line(last), pred);
    Seq::filter_distributes_over_add(lines, last_line(last), pred);
    assert(nonblank(split) == args);
    lemma_stdin_texts(split, split.len() as int);
    assert(split.take(split.len() as int) =~= split);
    assert(texts_of(arg_sources(args)) =~= args);
}

} // verus!
