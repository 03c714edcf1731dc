//! Importing `.vscode/launch.json`: read-only, always.
//!
//! `launch.json` is JSONC — JSON with `//` and `/* */` comments and trailing
//! commas. The scanner here turns it into plain JSON; it is string-aware,
//! which is the whole difficulty: `"http://x"` and `{"sep": ","}` both hold
//! sequences that mean something outside a string and nothing inside one.
//!
//! A configuration this build cannot run is still listed, with the reason. A
//! `${...}` variable nothing can expand is left in the string verbatim and
//! recorded, never replaced with an empty string.
use vstd::prelude::*;

use crate::config::opt_view;
use crate::launch::{views, LaunchConfig, LaunchConfigSource, LaunchKind, NotRunnable, NotRunnableView};
use crate::pathname;
use crate::session::AdapterKind;
use crate::text;

verus! {

/// Where VS Code keeps the file, relative to the project root.
pub const LAUNCH_JSON_PATH: &'static str = ".vscode/launch.json";

// ---------------------------------------------------------------------------
// Comments and trailing commas.
// ---------------------------------------------------------------------------

/// Where the scanner is.
#[derive(Debug, Clone, Copy, PartialEq, Eq, Structural)]
pub enum Scan {
    Code,
    /// Inside `// ...`, up to and including the newline.
    LineComment,
    /// Inside `/* ... */`; whether the last character read was a `*`.
    BlockComment { after_star: bool },
    /// Inside a string; whether the last character read was an unescaped
    /// backslash.
    Str { escaped: bool },
}

/// What a character of a comment becomes: line breaks stay, so line numbers
/// survive, and everything else becomes a space, so columns do too and the
/// tokens either side are never welded together.
pub open spec fn blank(c: char) -> char {
    if c == '\n' || c == '\r' {
        c
    } else {
        ' '
    }
}

/// The output with a held-back comma and the whitespace after it written.
pub open spec fn flushed(out: Seq<char>, pending: bool, gap: Seq<char>) -> Seq<char> {
    (if pending {
        out.push(',')
    } else {
        out
    }) + gap
}

/// The scanner from position `i` on, with what it has written, whether a
/// comma is held back, the whitespace read since, and where it is.
pub open spec fn strip_from(
    s: Seq<char>,
    i: int,
    out: Seq<char>,
    pending: bool,
    gap: Seq<char>,
    mode: Scan,
) -> Result<Seq<char>, Seq<char>>
    decreases s.len() - i,
{
    if i < 0 || i >= s.len() {
        match mode {
            Scan::BlockComment { .. } => Err("a /* comment is never closed"@),
            Scan::Str { .. } => Err("a \" string is never closed"@),
            _ => Ok(flushed(out, pending, gap)),
        }
    } else {
        let c = s[i];
        match mode {
            Scan::LineComment => strip_from(
                s,
                i + 1,
                out,
                pending,
                gap.push(blank(c)),
                if c == '\n' {
                    Scan::Code
                } else {
                    Scan::LineComment
                },
            ),
            Scan::BlockComment { after_star } => strip_from(
                s,
                i + 1,
                out,
                pending,
                gap.push(blank(c)),
                if after_star && c == '/' {
                    Scan::Code
                } else {
                    Scan::BlockComment { after_star: c == '*' }
                },
            ),
            Scan::Str { escaped } => strip_from(
                s,
                i + 1,
                out.push(c),
                pending,
                gap,
                if escaped {
                    Scan::Str { escaped: false }
                } else if c == '\\' {
                    Scan::Str { escaped: true }
                } else if c == '"' {
                    Scan::Code
                } else {
                    Scan::Str { escaped: false }
                },
            ),
            Scan::Code => if c == '/' && i + 1 < s.len() && s[i + 1] == '/' {
                strip_from(s, i + 2, out, pending, gap.push(' ').push(' '), Scan::LineComment)
            } else if c == '/' && i + 1 < s.len() && s[i + 1] == '*' {
                strip_from(
                    s,
                    i + 2,
                    out,
                    pending,
                    gap.push(' ').push(' '),
                    Scan::BlockComment { after_star: false },
                )
            } else if text::is_ws(c) {
                strip_from(s, i + 1, out, pending, gap.push(c), Scan::Code)
            } else if c == ',' {
                strip_from(s, i + 1, flushed(out, pending, gap), true, Seq::empty(), Scan::Code)
            } else if c == '}' || c == ']' {
                strip_from(s, i + 1, (out + gap).push(c), false, Seq::empty(), Scan::Code)
            } else if c == '"' {
                strip_from(
                    s,
                    i + 1,
                    flushed(out, pending, gap).push('"'),
                    false,
                    Seq::empty(),
                    Scan::Str { escaped: false },
                )
            } else {
                strip_from(s, i + 1, flushed(out, pending, gap).push(c), false, Seq::empty(), Scan::Code)
            },
        }
    }
}

/// JSON with the comments and trailing commas taken out, or what was left
/// unclosed.
pub open spec fn strip(s: Seq<char>) -> Result<Seq<char>, Seq<char>> {
    strip_from(s, 0, Seq::empty(), false, Seq::empty(), Scan::Code)
}

fn append(out: &mut Vec<char>, more: &Vec<char>)
    ensures
        final(out)@ == old(out)@ + more@,
{
    let ghost start = out@;
    let mut k: usize = 0;
    while k < more.len()
        invariant
            k <= more@.len(),
            out@ == start + more@.take(k as int),
        decreases more.len() - k,
    {
        out.push(more[k]);
        k = k + 1;
        assert(out@ =~= start + more@.take(k as int));
    }
    assert(more@.take(more@.len() as int) =~= more@);
}

fn flush(out: &mut Vec<char>, pending: &mut bool, gap: &mut Vec<char>)
    ensures
        final(out)@ == flushed(old(out)@, *old(pending), old(gap)@),
        !*final(pending),
        final(gap)@ == Seq::<char>::empty(),
{
    if *pending {
        out.push(',');
    }
    *pending = false;
    append(out, gap);
    *gap = Vec::new();
}

/// JSON with the comments and trailing commas taken out.
///
/// Comments become the whitespace they occupied, character for character,
/// newlines included. An unclosed block comment or string is refused, as
/// VS Code refuses it; a file may end in a line comment.
pub fn strip_jsonc(source: &str) -> (r: Result<String, String>)
    ensures
        match strip(source@) {
            Ok(o) => r matches Ok(s) && s@ == o,
            Err(e) => r matches Err(m) && m@ == e,
        },
{
    let v = text::chars_of(source);
    let n = v.len();
    let mut out: Vec<char> = Vec::new();
    let mut gap: Vec<char> = Vec::new();
    let mut pending = false;
    let mut mode = Scan::Code;
    let mut i: usize = 0;
    while i < n
        invariant
            n == v@.len(),
            i <= n,
            strip(v@) == strip_from(v@, i as int, out@, pending, gap@, mode),
        decreases n - i,
    {
        let c = v[i];
        match mode {
            Scan::LineComment => {
                gap.push(if c == '\n' || c == '\r' { c } else { ' ' });
                if c == '\n' {
                    mode = Scan::Code;
                }
                i = i + 1;
            },
            Scan::BlockComment { after_star } => {
                gap.push(if c == '\n' || c == '\r' { c } else { ' ' });
                mode = if after_star && c == '/' {
                    Scan::Code
                } else {
                    Scan::BlockComment { after_star: c == '*' }
                };
                i = i + 1;
            },
            Scan::Str { escaped } => {
                out.push(c);
                mode = if escaped {
                    Scan::Str { escaped: false }
                } else if c == '\\' {
                    Scan::Str { escaped: true }
                } else if c == '"' {
                    Scan::Code
                } else {
                    Scan::Str { escaped: false }
                };
                i = i + 1;
            },
            Scan::Code => {
                if c == '/' && i + 1 < n && v[i + 1] == '/' {
                    gap.push(' ');
                    gap.push(' ');
                    mode = Scan::LineComment;
                    i = i + 2;
                } else if c == '/' && i + 1 < n && v[i + 1] == '*' {
                    gap.push(' ');
                    gap.push(' ');
                    mode = Scan::BlockComment { after_star: false };
                    i = i + 2;
                } else if text::is_ws_char(c) {
                    gap.push(c);
                    i = i + 1;
                } else if c == ',' {
                    flush(&mut out, &mut pending, &mut gap);
                    pending = true;
                    i = i + 1;
                } else if c == '}' || c == ']' {
                    pending = false;
                    append(&mut out, &gap);
                    gap = Vec::new();
                    out.push(c);
                    i = i + 1;
                } else if c == '"' {
                    flush(&mut out, &mut pending, &mut gap);
                    out.push('"');
                    mode = Scan::Str { escaped: false };
                    i = i + 1;
                } else {
                    flush(&mut out, &mut pending, &mut gap);
                    out.push(c);
                    i = i + 1;
                }
            },
        }
    }
    match mode {
        Scan::BlockComment { .. } => Err(text::owned("a /* comment is never closed")),
        Scan::Str { .. } => Err(text::owned("a \" string is never closed")),
        _ => {
            flush(&mut out, &mut pending, &mut gap);
            Ok(text::string_of(&out))
        },
    }
}

/// How many times `c` occurs in `s`.
pub open spec fn count(s: Seq<char>, c: char) -> nat
    decreases s.len(),
{
    if s.len() == 0 {
        0
    } else {
        count(s.drop_last(), c) + if s.last() == c {
            1nat
        } else {
            0nat
        }
    }
}

proof fn lemma_count_concat(a: Seq<char>, b: Seq<char>, c: char)
    ensures
        count(a + b, c) == count(a, c) + count(b, c),
    decreases b.len(),
{
    if b.len() > 0 {
        lemma_count_concat(a, b.drop_last(), c);
        assert((a + b).drop_last() =~= a + b.drop_last());
    } else {
        assert(a + b =~= a);
    }
}

proof fn lemma_count_push(a: Seq<char>, x: char, c: char)
    ensures
        count(a.push(x), c) == count(a, c) + if x == c {
            1nat
        } else {
            0nat
        },
{
    assert(a.push(x).drop_last() =~= a);
}

proof fn lemma_count_front(s: Seq<char>, i: int, c: char)
    requires
        0 <= i < s.len(),
    ensures
        count(s.skip(i), c) == count(s.skip(i + 1), c) + if s[i] == c {
            1nat
        } else {
            0nat
        },
{
    assert(s.skip(i) =~= seq![s[i]] + s.skip(i + 1));
    lemma_count_concat(seq![s[i]], s.skip(i + 1), c);
    lemma_count_push(Seq::<char>::empty(), s[i], c);
    assert(Seq::<char>::empty().push(s[i]) =~= seq![s[i]]);
    assert(count(Seq::<char>::empty(), c) == 0);
}

proof fn lemma_strip_counts(
    s: Seq<char>,
    i: int,
    out: Seq<char>,
    pending: bool,
    gap: Seq<char>,
    mode: Scan,
)
    requires
        0 <= i <= s.len(),
    ensures
        strip_from(s, i, out, pending, gap, mode) matches Ok(o) ==> count(o, '\n') == count(
            out,
            '\n',
        ) + count(gap, '\n') + count(s.skip(i), '\n'),
        !pending && !s.skip(i).contains(',') ==> (strip_from(s, i, out, pending, gap, mode) matches Ok(
            o,
        ) ==> o.len() == out.len() + gap.len() + (s.len() - i)),
    decreases s.len() - i,
{
    let nl = '\n';
    if i == s.len() {
        assert(s.skip(i) =~= Seq::<char>::empty());
        let f = if pending { out.push(',') } else { out };
        lemma_count_concat(f, gap, nl);
        lemma_count_push(out, ',', nl);
    } else {
        let c = s[i];
        lemma_count_front(s, i, nl);
        assert(s.skip(i + 1) =~= s.skip(i).drop_first());
        assert(!s.skip(i).contains(',') ==> !s.skip(i + 1).contains(',')) by {
            if !s.skip(i).contains(',') {
                assert forall|k: int| 0 <= k < s.skip(i + 1).len() implies #[trigger] s.skip(i + 1)[k] != ',' by {
                    assert(s.skip(i + 1)[k] == s.skip(i)[k + 1]);
                }
            }
        }
        assert(!s.skip(i).contains(',') ==> c != ',') by {
            if c == ',' {
                assert(s.skip(i)[0] == ',');
            }
        }
        lemma_count_push(gap, blank(c), nl);
        lemma_count_push(out, c, nl);
        match mode {
            Scan::LineComment => {
                lemma_strip_counts(s, i + 1, out, pending, gap.push(blank(c)), if c == '\n' {
                    Scan::Code
                } else {
                    Scan::LineComment
                });
            },
            Scan::BlockComment { after_star } => {
                lemma_strip_counts(s, i + 1, out, pending, gap.push(blank(c)), if after_star && c
                    == '/' {
                    Scan::Code
                } else {
                    Scan::BlockComment { after_star: c == '*' }
                });
            },
            Scan::Str { escaped } => {
                lemma_strip_counts(s, i + 1, out.push(c), pending, gap, if escaped {
                    Scan::Str { escaped: false }
                } else if c == '\\' {
                    Scan::Str { escaped: true }
                } else if c == '"' {
                    Scan::Code
                } else {
                    Scan::Str { escaped: false }
                });
            },
            Scan::Code => {
                let f = flushed(out, pending, gap);
                let pre = if pending { out.push(',') } else { out };
                lemma_count_concat(pre, gap, nl);
                lemma_count_push(out, ',', nl);
                if c == '/' && i + 1 < s.len() && (s[i + 1] == '/' || s[i + 1] == '*') {
                    lemma_count_front(s, i + 1, nl);
                    assert(s.skip(i + 2) =~= s.skip(i + 1).drop_first());
                    assert(!s.skip(i + 1).contains(',') ==> !s.skip(i + 2).contains(',')) by {
                        if !s.skip(i + 1).contains(',') {
                            assert forall|k: int| 0 <= k < s.skip(i + 2).len() implies #[trigger] s.skip(
                                i + 2,
                            )[k] != ',' by {
                                assert(s.skip(i + 2)[k] == s.skip(i + 1)[k + 1]);
                            }
                        }
                    }
                    let g2 = gap.push(' ').push(' ');
                    lemma_count_push(gap, ' ', nl);
                    lemma_count_push(gap.push(' '), ' ', nl);
                    if s[i + 1] == '/' {
                        lemma_strip_counts(s, i + 2, out, pending, g2, Scan::LineComment);
                    } else {
                        lemma_strip_counts(
                            s,
                            i + 2,
                            out,
                            pending,
                            g2,
                            Scan::BlockComment { after_star: false },
                        );
                    }
                } else if text::is_ws(c) {
                    lemma_count_push(gap, c, nl);
                    lemma_strip_counts(s, i + 1, out, pending, gap.push(c), Scan::Code);
                } else if c == ',' {
                    lemma_strip_counts(s, i + 1, f, true, Seq::empty(), Scan::Code);
                } else if c == '}' || c == ']' {
                    lemma_count_concat(out, gap, nl);
                    lemma_count_push(out + gap, c, nl);
                    lemma_strip_counts(s, i + 1, (out + gap).push(c), false, Seq::empty(), Scan::Code);
                } else if c == '"' {
                    lemma_count_push(f, '"', nl);
                    lemma_strip_counts(
                        s,
                        i + 1,
                        f.push('"'),
                        false,
                        Seq::empty(),
                        Scan::Str { escaped: false },
                    );
                } else {
                    lemma_count_push(f, c, nl);
                    lemma_strip_counts(s, i + 1, f.push(c), false, Seq::empty(), Scan::Code);
                }
            },
        }
    }
}

/// Stripping keeps the line numbers a reader would count: the output has as
/// many line breaks as the input. And it keeps columns: where nothing was
/// dropped (there is no comma in the input to drop), output and input are
/// the same length.
pub proof fn law_strip_keeps_lines_and_columns(source: Seq<char>)
    ensures
        strip(source) matches Ok(o) ==> count(o, '\n') == count(source, '\n'),
        !source.contains(',') ==> (strip(source) matches Ok(o) ==> o.len() == source.len()),
{
    lemma_strip_counts(source, 0, Seq::empty(), false, Seq::empty(), Scan::Code);
    assert(source.skip(0) =~= source);
}

// ---------------------------------------------------------------------------
// Shell-style argument strings.
// ---------------------------------------------------------------------------

/// The splitter from position `i` on, with the arguments so far, the one
/// being read, whether it has started (an empty quoted argument has), and
/// the quote it is inside.
pub open spec fn split_from(
    s: Seq<char>,
    i: int,
    args: Seq<Seq<char>>,
    current: Seq<char>,
    started: bool,
    quote: Option<char>,
) -> Result<Seq<Seq<char>>, Seq<char>>
    decreases s.len() - i,
{
    if i < 0 || i >= s.len() {
        match quote {
            Some(q) => Err("it has an unterminated "@ + seq![q] + " quote"@),
            None => Ok(
                if started {
                    args.push(current)
                } else {
                    args
                },
            ),
        }
    } else {
        let c = s[i];
        if c == '\\' && quote != Some('\'') {
            if i + 1 < s.len() {
                split_from(s, i + 2, args, current.push(s[i + 1]), true, quote)
            } else {
                Err("it ends in a trailing backslash"@)
            }
        } else if (c == '"' || c == '\'') && quote is None {
            split_from(s, i + 1, args, current, true, Some(c))
        } else if quote == Some(c) {
            split_from(s, i + 1, args, current, started, None)
        } else if text::is_ws(c) && quote is None {
            if started {
                split_from(s, i + 1, args.push(current), Seq::empty(), false, None)
            } else {
                split_from(s, i + 1, args, current, false, None)
            }
        } else {
            split_from(s, i + 1, args, current.push(c), true, quote)
        }
    }
}

/// One shell-style argument string as arguments: whitespace separates,
/// double and single quotes group, and a backslash escapes the next character
/// outside single quotes. Nothing is expanded.
pub open spec fn split(line: Seq<char>) -> Result<Seq<Seq<char>>, Seq<char>> {
    split_from(line, 0, Seq::empty(), Seq::empty(), false, None)
}

/// A character that stands for itself in an argument string: no
/// whitespace, quote or backslash.
pub open spec fn plain_char(c: char) -> bool {
    !text::is_ws(c) && c != '"' && c != '\'' && c != '\\'
}

/// A word made only of such characters, at least one.
pub open spec fn plain_word(w: Seq<char>) -> bool {
    w.len() > 0 && forall|j: int| 0 <= j < w.len() ==> plain_char(#[trigger] w[j])
}

/// Words joined by single spaces.
pub open spec fn spaced(words: Seq<Seq<char>>) -> Seq<char>
    decreases words.len(),
{
    if words.len() == 0 {
        Seq::empty()
    } else if words.len() == 1 {
        words[0]
    } else {
        words[0] + seq![' '] + spaced(words.drop_first())
    }
}

/// A run of plain characters is taken into the argument being read.
proof fn lemma_plain_run(
    s: Seq<char>,
    i: int,
    k: int,
    args: Seq<Seq<char>>,
    current: Seq<char>,
    started: bool,
)
    requires
        0 <= i,
        0 <= k,
        i + k <= s.len(),
        forall|j: int| i <= j < i + k ==> plain_char(#[trigger] s[j]),
    ensures
        split_from(s, i, args, current, started, None) == split_from(
            s,
            i + k,
            args,
            current + s.subrange(i, i + k),
            started || k > 0,
            None,
        ),
    decreases k,
{
    if k == 0 {
        assert(current + s.subrange(i, i) =~= current);
    } else {
        let c = s[i];
        assert(plain_char(c));
        lemma_plain_run(s, i + 1, k - 1, args, current.push(c), true);
        assert(current.push(c) + s.subrange(i + 1, i + k) =~= current + s.subrange(i, i + k));
    }
}

proof fn lemma_split_spaced(s: Seq<char>, i: int, args: Seq<Seq<char>>, words: Seq<Seq<char>>)
    requires
        0 <= i <= s.len(),
        s.subrange(i, s.len() as int) == spaced(words),
        forall|k: int| 0 <= k < words.len() ==> plain_word(#[trigger] words[k]),
    ensures
        split_from(s, i, args, Seq::empty(), false, None) == Ok::<Seq<Seq<char>>, Seq<char>>(
            args + words,
        ),
    decreases words.len(),
{
    if words.len() == 0 {
        assert(i == s.len());
        assert(args + words =~= args);
    } else {
        let w = words[0];
        assert(plain_word(w));
        let n = w.len() as int;
        assert(s.subrange(i, s.len() as int).subrange(0, n) =~= w) by {
            if words.len() > 1 {
                assert(spaced(words).subrange(0, n) =~= w);
            }
        }
        assert(spaced(words).len() >= n) by {
            if words.len() > 1 {
                assert(spaced(words) == w + seq![' '] + spaced(words.drop_first()));
            }
        }
        assert(i + n <= s.len());
        assert forall|j: int| i <= j < i + n implies plain_char(#[trigger] s[j]) by {
            assert(s[j] == s.subrange(i, s.len() as int)[j - i]);
            assert(w[j - i] == s.subrange(i, s.len() as int).subrange(0, n)[j - i]);
        }
        lemma_plain_run(s, i, n, args, Seq::empty(), false);
        assert(Seq::<char>::empty() + s.subrange(i, i + n) =~= w);
        if words.len() == 1 {
            assert(i + n == s.len());
            assert(args + words =~= args.push(w));
        } else {
            let rest = words.drop_first();
            assert(s[i + n] == spaced(words)[n]);
            assert(s[i + n] == ' ');
            assert(text::is_ws(' '));
            let whole = s.subrange(i, s.len() as int);
            assert(spaced(words) == w + seq![' '] + spaced(rest));
            assert(whole.len() == n + 1 + spaced(rest).len());
            let tail = s.subrange(i + n + 1, s.len() as int);
            assert(tail.len() == spaced(rest).len());
            assert forall|m: int| 0 <= m < spaced(rest).len() implies #[trigger] tail[m]
                == spaced(rest)[m] by {
                assert(tail[m] == s[i + n + 1 + m]);
                assert(s[i + n + 1 + m] == whole[n + 1 + m]);
                assert((w + seq![' '] + spaced(rest))[n + 1 + m] == spaced(rest)[m]);
            }
            assert(s.subrange(i + n + 1, s.len() as int) =~= spaced(rest));
            assert forall|k: int| 0 <= k < rest.len() implies plain_word(#[trigger] rest[k]) by {
                assert(rest[k] == words[k + 1]);
            }
            lemma_split_spaced(s, i + n + 1, args.push(w), rest);
            assert(args.push(w) + rest =~= args + words);
        }
    }
}

/// Plain words joined by spaces split back into themselves: whitespace
/// separates and nothing else happens, so `$HOME` or `$(whoami)` come back
/// as written.
pub proof fn law_plain_words_split_back(words: Seq<Seq<char>>)
    requires
        forall|k: int| 0 <= k < words.len() ==> plain_word(#[trigger] words[k]),
    ensures
        split(spaced(words)) == Ok::<Seq<Seq<char>>, Seq<char>>(words),
{
    let s = spaced(words);
    assert(s.subrange(0, s.len() as int) =~= s);
    lemma_split_spaced(s, 0, Seq::empty(), words);
    assert(Seq::<Seq<char>>::empty() + words =~= words);
}

/// Whether `c` stands for itself inside quotes `q`: anything but `q`, and
/// inside double quotes anything but a backslash too.
pub open spec fn quoted_char(q: char, c: char) -> bool {
    c != q && (q == '\'' || c != '\\')
}

/// A run of such characters inside quotes is taken into the argument being
/// read.
proof fn lemma_quoted_run(
    s: Seq<char>,
    i: int,
    k: int,
    args: Seq<Seq<char>>,
    current: Seq<char>,
    q: char,
)
    requires
        q == '"' || q == '\'',
        0 <= i,
        0 <= k,
        i + k <= s.len(),
        forall|j: int| i <= j < i + k ==> quoted_char(q, #[trigger] s[j]),
    ensures
        split_from(s, i, args, current, true, Some(q)) == split_from(
            s,
            i + k,
            args,
            current + s.subrange(i, i + k),
            true,
            Some(q),
        ),
    decreases k,
{
    if k == 0 {
        assert(current + s.subrange(i, i) =~= current);
    } else {
        let c = s[i];
        assert(quoted_char(q, c));
        lemma_quoted_run(s, i + 1, k - 1, args, current.push(c), q);
        assert(current.push(c) + s.subrange(i + 1, i + k) =~= current + s.subrange(i, i + k));
    }
}

/// A word between quotes `q` with nothing in it that ends or escapes them
/// splits into that one word.
proof fn lemma_quoted_word(w: Seq<char>, q: char)
    requires
        q == '"' || q == '\'',
        forall|j: int| 0 <= j < w.len() ==> quoted_char(q, #[trigger] w[j]),
    ensures
        split(seq![q] + w + seq![q]) == Ok::<Seq<Seq<char>>, Seq<char>>(seq![w]),
{
    let s = seq![q] + w + seq![q];
    let n = w.len() as int;
    assert forall|j: int| 1 <= j < 1 + n implies quoted_char(q, #[trigger] s[j]) by {
        assert(s[j] == w[j - 1]);
    }
    assert(s[0] == q);
    assert(split(s) == split_from(s, 1, Seq::empty(), Seq::empty(), true, Some(q)));
    lemma_quoted_run(s, 1, n, Seq::empty(), Seq::empty(), q);
    assert(Seq::<char>::empty() + s.subrange(1, 1 + n) =~= w);
    assert(s[1 + n] == q);
    assert(split_from(s, 1 + n, Seq::empty(), w, true, Some(q)) == split_from(
        s,
        2 + n,
        Seq::empty(),
        w,
        true,
        None,
    ));
    assert(Seq::<Seq<char>>::empty().push(w) =~= seq![w]);
}

/// Inside double quotes a single quote is kept as data: a word with no
/// double quote and no backslash, written between double quotes, is one
/// argument, apostrophes and spaces included.
pub proof fn law_double_quoted_word_is_one_argument(w: Seq<char>)
    requires
        forall|j: int| 0 <= j < w.len() ==> #[trigger] w[j] != '"' && w[j] != '\\',
    ensures
        split(seq!['"'] + w + seq!['"']) == Ok::<Seq<Seq<char>>, Seq<char>>(seq![w]),
{
    assert forall|j: int| 0 <= j < w.len() implies quoted_char('"', #[trigger] w[j]) by {
        assert(w[j] != '"' && w[j] != '\\');
    }
    lemma_quoted_word(w, '"');
}

/// Inside single quotes a double quote or a backslash is kept as data: a
/// word with no single quote, written between single quotes, is one
/// argument exactly as written.
pub proof fn law_single_quoted_word_is_one_argument(w: Seq<char>)
    requires
        forall|j: int| 0 <= j < w.len() ==> #[trigger] w[j] != '\'',
    ensures
        split(seq!['\''] + w + seq!['\'']) == Ok::<Seq<Seq<char>>, Seq<char>>(seq![w]),
{
    assert forall|j: int| 0 <= j < w.len() implies quoted_char('\'', #[trigger] w[j]) by {
        assert(w[j] != '\'');
    }
    lemma_quoted_word(w, '\'');
}

/// Outside single quotes a backslash makes the next character data,
/// whatever it is (a quote, whitespace, another backslash), bare or between
/// double quotes.
pub proof fn law_backslash_escapes_the_next_character(c: char)
    ensures
        split(seq!['\\', c]) == Ok::<Seq<Seq<char>>, Seq<char>>(seq![seq![c]]),
        split(seq!['"', '\\', c, '"']) == Ok::<Seq<Seq<char>>, Seq<char>>(seq![seq![c]]),
{
    let bare = seq!['\\', c];
    assert(split(bare) == split_from(bare, 2, Seq::empty(), seq![c], true, None));
    assert(Seq::<Seq<char>>::empty().push(seq![c]) =~= seq![seq![c]]);
    assert(Seq::<char>::empty().push(c) =~= seq![c]);
    let quoted = seq!['"', '\\', c, '"'];
    assert(split(quoted) == split_from(quoted, 1, Seq::empty(), Seq::empty(), true, Some('"')));
    assert(split_from(quoted, 1, Seq::empty(), Seq::empty(), true, Some('"')) == split_from(
        quoted,
        3,
        Seq::empty(),
        seq![c],
        true,
        Some('"'),
    ));
    assert(split_from(quoted, 3, Seq::empty(), seq![c], true, Some('"')) == split_from(
        quoted,
        4,
        Seq::empty(),
        seq![c],
        true,
        None,
    ));
}

/// Splits one shell-style argument string into arguments. An unterminated
/// quote or a trailing backslash is an error rather than a guess.
pub fn split_arguments(line: &str) -> (r: Result<Vec<String>, String>)
    ensures
        match split(line@) {
            Ok(a) => r matches Ok(v) && views(v@) == a,
            Err(e) => r matches Err(m) && m@ == e,
        },
{
    let v = text::chars_of(line);
    let n = v.len();
    let mut args: Vec<String> = Vec::new();
    let mut current: Vec<char> = Vec::new();
    let mut started = false;
    let mut quote: Option<char> = None;
    let mut i: usize = 0;
    assert(views(args@) =~= Seq::<Seq<char>>::empty());
    while i < n
        invariant
            n == v@.len(),
            v@ == line@,
            i <= n,
            split(v@) == split_from(v@, i as int, views(args@), current@, started, quote),
        decreases n - i,
    {
        let c = v[i];
        if c == '\\' && quote != Some('\'') {
            if i + 1 < n {
                current.push(v[i + 1]);
                started = true;
                i = i + 2;
            } else {
                return Err(text::owned("it ends in a trailing backslash"));
            }
        } else if (c == '"' || c == '\'') && quote.is_none() {
            quote = Some(c);
            started = true;
            i = i + 1;
        } else if quote == Some(c) {
            quote = None;
            i = i + 1;
        } else if text::is_ws_char(c) && quote.is_none() {
            if started {
                let arg = text::string_of(&current);
                let ghost before = views(args@);
                args.push(arg);
                assert(views(args@) =~= before.push(current@));
                current = Vec::new();
                started = false;
            }
            quote = None;
            i = i + 1;
        } else {
            current.push(c);
            started = true;
            i = i + 1;
        }
    }
    if let Some(q) = quote {
        let mut m = text::owned("it has an unterminated ");
        text::push_char(&mut m, q);
        text::push_str(&mut m, " quote");
        return Err(m);
    }
    if started {
        let arg = text::string_of(&current);
        let ghost before = views(args@);
        args.push(arg);
        assert(views(args@) =~= before.push(current@));
    }
    Ok(args)
}

// ---------------------------------------------------------------------------
// `${...}` variables.
// ---------------------------------------------------------------------------

/// What the variables lazydap knows stand for: the project root (the
/// workspace folder), the user's home directory when there is one, and the
/// environment, first entry for a name wins.
#[derive(Debug, Clone, PartialEq, Eq)]
pub struct ExpandContext {
    pub root: String,
    pub home: Option<String>,
    pub env: Vec<(String, String)>,
}

pub open spec fn opt_string(o: Option<String>) -> Option<Seq<char>> {
    match o {
        Some(s) => Some(s@),
        None => None,
    }
}

/// The value of the first environment entry from the `i`-th on named `key`.
pub open spec fn env_lookup(env: Seq<(String, String)>, key: Seq<char>, i: int) -> Option<Seq<char>>
    decreases env.len() - i,
{
    if i < 0 || i >= env.len() {
        None
    } else if env[i].0@ == key {
        Some(env[i].1@)
    } else {
        env_lookup(env, key, i + 1)
    }
}

/// What a variable name stands for, or `None` when it is nobody's this
/// side of an editor (`${file}`, `${command:...}`, `${input:...}`) or an
/// environment variable that is not set — unset is unresolved, not empty.
pub open spec fn resolve(name: Seq<char>, ctx: ExpandContext) -> Option<Seq<char>> {
    if name == "workspaceFolder"@ || name == "workspaceRoot"@ {
        Some(ctx.root@)
    } else if name == "workspaceFolderBasename"@ {
        pathname::file_name(ctx.root@)
    } else if name == "userHome"@ {
        opt_string(ctx.home)
    } else if name == "pathSeparator"@ || name == seq!['/'] {
        Some(seq!['/'])
    } else if name.len() >= 4 && name.take(4) == seq!['e', 'n', 'v', ':'] {
        env_lookup(ctx.env@, name.skip(4), 0)
    } else {
        None
    }
}

fn resolve_exec(name: &str, ctx: &ExpandContext) -> (r: Option<String>)
    ensures
        opt_string(r) == resolve(name@, *ctx),
{
    if text::str_eq(name, "workspaceFolder") || text::str_eq(name, "workspaceRoot") {
        return Some(text::owned(ctx.root.as_str()));
    }
    if text::str_eq(name, "workspaceFolderBasename") {
        let v = text::chars_of(ctx.root.as_str());
        return match pathname::file_name_bounds(&v) {
            Some((a, b)) => Some(text::string_of_range(&v, a, b)),
            None => None,
        };
    }
    if text::str_eq(name, "userHome") {
        return match &ctx.home {
            Some(h) => Some(text::owned(h.as_str())),
            None => None,
        };
    }
    if text::str_eq(name, "pathSeparator") || text::str_eq(name, "/") {
        let r = text::owned("/");
        proof {
            reveal_strlit("/");
        }
        assert(r@ =~= seq!['/']);
        return Some(r);
    }
    proof {
        reveal_strlit("/");
    }
    assert("/"@ =~= seq!['/']);
    let v = text::chars_of(name);
    if v.len() >= 4 && v[0] == 'e' && v[1] == 'n' && v[2] == 'v' && v[3] == ':' {
        assert(v@.take(4) =~= seq!['e', 'n', 'v', ':']);
        let key = text::string_of_range(&v, 4, v.len());
        assert(v@.subrange(4, v@.len() as int) =~= name@.skip(4));
        assert(resolve(name@, *ctx) == env_lookup(ctx.env@, name@.skip(4), 0));
        let mut i: usize = 0;
        while i < ctx.env.len()
            invariant
                i <= ctx.env@.len(),
                resolve(name@, *ctx) == env_lookup(ctx.env@, name@.skip(4), 0),
                env_lookup(ctx.env@, name@.skip(4), 0) == env_lookup(ctx.env@, key@, i as int),
                key@ == name@.skip(4),
            decreases ctx.env.len() - i,
        {
            if text::str_eq(ctx.env[i].0.as_str(), key.as_str()) {
                return Some(text::owned(ctx.env[i].1.as_str()));
            }
            i = i + 1;
        }
        return None;
    }
    proof {
        if name@.len() >= 4 && name@.take(4) == seq!['e', 'n', 'v', ':'] {
            assert(name@[0] == name@.take(4)[0]);
            assert(name@[1] == name@.take(4)[1]);
            assert(name@[2] == name@.take(4)[2]);
            assert(name@[3] == name@.take(4)[3]);
        }
    }
    None
}

/// The first occurrence of `pat` in `s` at or after `from`.
pub open spec fn find_pat(s: Seq<char>, pat: Seq<char>, from: int) -> Option<int>
    decreases s.len() - from,
{
    if from < 0 || from >= s.len() || from + pat.len() > s.len() {
        None
    } else if text::occurs_at(s, pat, from) {
        Some(from)
    } else {
        find_pat(s, pat, from + 1)
    }
}

proof fn lemma_find_pat(s: Seq<char>, pat: Seq<char>, from: int)
    requires
        0 <= from,
        pat.len() > 0,
    ensures
        match find_pat(s, pat, from) {
            Some(j) => text::first_at_or_after(s, pat, from, j),
            None => forall|k: int| from <= k ==> !text::occurs_at(s, pat, k),
        },
    decreases s.len() - from,
{
    if from < s.len() && from + pat.len() <= s.len() && !text::occurs_at(s, pat, from) {
        lemma_find_pat(s, pat, from + 1);
    }
}

/// `find_from`, as `find_pat` says it.
fn find(s: &Vec<char>, pat: &Vec<char>, from: usize) -> (r: Option<usize>)
    requires
        from <= s@.len(),
        pat@.len() > 0,
    ensures
        match find_pat(s@, pat@, from as int) {
            Some(j) => r == Some(j as usize) && from <= j && j + pat@.len() <= s@.len(),
            None => r is None,
        },
{
    let r = text::find_from(s, pat, from);
    proof {
        lemma_find_pat(s@, pat@, from as int);
    }
    r
}

/// `u` with `token` on the end, unless it is there already.
pub open spec fn record(u: Seq<Seq<char>>, token: Seq<char>) -> Seq<Seq<char>> {
    if u.contains(token) {
        u
    } else {
        u.push(token)
    }
}

/// Expansion of `s` from position `pos` on, with the variables recorded as
/// unresolved so far: what comes out, and the record afterwards.
///
/// A `${` with no `}` after it passes through as written; it is recorded
/// when it reads as a name (a letter follows), since every variable VS Code
/// defines starts with one.
pub open spec fn expand_from(s: Seq<char>, pos: int, ctx: ExpandContext, u: Seq<Seq<char>>) -> (
    Seq<char>,
    Seq<Seq<char>>,
)
    decreases s.len() - pos,
{
    if pos < 0 || pos > s.len() {
        (Seq::empty(), u)
    } else {
        match find_pat(s, seq!['$', '{'], pos) {
            None => (s.subrange(pos, s.len() as int), u),
            Some(start) => match find_pat(s, seq!['}'], start + 2) {
                None => {
                    let tail = s.subrange(start, s.len() as int);
                    (
                        s.subrange(pos, s.len() as int),
                        if start + 2 < s.len() && text::is_alpha(s[start + 2]) {
                            record(u, tail)
                        } else {
                            u
                        },
                    )
                },
                Some(end) => {
                    let name = s.subrange(start + 2, end);
                    let token = seq!['$', '{'] + name + seq!['}'];
                    let piece = match resolve(name, ctx) {
                        Some(value) => value,
                        None => token,
                    };
                    let u2 = match resolve(name, ctx) {
                        Some(_) => u,
                        None => record(u, token),
                    };
                    if end + 1 <= pos || end >= s.len() {
                        (Seq::empty(), u)
                    } else {
                        let rest = expand_from(s, end + 1, ctx, u2);
                        (s.subrange(pos, start) + piece + rest.0, rest.1)
                    }
                },
            },
        }
    }
}

/// `s` with its variables expanded, and the record of unresolved ones.
pub open spec fn expansion(s: Seq<char>, ctx: ExpandContext, u: Seq<Seq<char>>) -> (
    Seq<char>,
    Seq<Seq<char>>,
) {
    expand_from(s, 0, ctx, u)
}

/// Both spellings of the workspace variable stand for the project root,
/// whatever else the context holds: `workspaceFolder`, and `workspaceRoot`,
/// the older spelling still found in many files.
pub proof fn law_both_workspace_spellings_are_the_root(ctx: ExpandContext)
    ensures
        resolve("workspaceFolder"@, ctx) == Some(ctx.root@),
        resolve("workspaceRoot"@, ctx) == Some(ctx.root@),
{
}

/// `workspaceFolderBasename` is the last component of the project root.
pub proof fn law_basename_is_the_last_component(
    ctx: ExpandContext,
    dir: Seq<char>,
    name: Seq<char>,
)
    requires
        ctx.root@ == dir + seq!['/'] + name,
        name.len() > 0,
        forall|k: int| 0 <= k < name.len() ==> #[trigger] name[k] != '/',
        name != seq!['.'],
        name != seq!['.', '.'],
    ensures
        resolve("workspaceFolderBasename"@, ctx) == Some(name),
{
    reveal_strlit("workspaceFolderBasename");
    reveal_strlit("workspaceFolder");
    reveal_strlit("workspaceRoot");
    assert("workspaceFolderBasename"@.len() != "workspaceFolder"@.len());
    assert("workspaceFolderBasename"@.len() != "workspaceRoot"@.len());
    let p = ctx.root@;
    let n = name.len() as int;
    let d = dir.len() as int;
    assert(p.last() == name[n - 1]);
    if n >= 2 {
        assert(p[p.len() - 2] == name[n - 2]);
    } else {
        assert(name =~= seq![name[0]]);
        assert(name[0] != '.');
    }
    assert(pathname::trimmed_tail(p) == p);
    assert(p[d] == '/');
    assert forall|k: int| d < k < p.len() implies p[k] != '/' by {
        assert(p[k] == name[k - d - 1]);
    }
    text::lemma_last_index_of_unique(p, '/', d);
    assert(p.subrange(d + 1, p.len() as int) =~= name);
}

/// From the `i`-th entry on, the first one named `key` gives the value.
proof fn lemma_env_lookup_first(env: Seq<(String, String)>, key: Seq<char>, i: int, j: int)
    requires
        0 <= i <= j < env.len(),
        env[j].0@ == key,
        forall|k: int| i <= k < j ==> (#[trigger] env[k]).0@ != key,
    ensures
        env_lookup(env, key, i) == Some(env[j].1@),
    decreases j - i,
{
    if i < j {
        lemma_env_lookup_first(env, key, i + 1, j);
    }
}

/// From the `i`-th entry on, no entry is named `key`.
proof fn lemma_env_lookup_none(env: Seq<(String, String)>, key: Seq<char>, i: int)
    requires
        0 <= i,
        forall|k: int| i <= k < env.len() ==> (#[trigger] env[k]).0@ != key,
    ensures
        env_lookup(env, key, i) is None,
    decreases env.len() - i,
{
    if i < env.len() {
        lemma_env_lookup_none(env, key, i + 1);
    }
}

/// `${env:NAME}` stands for the first environment entry named `NAME`; when
/// none is, the variable is unresolved rather than empty.
pub proof fn law_env_variable_is_the_first_entry(ctx: ExpandContext, key: Seq<char>)
    ensures
        forall|j: int|
            0 <= j < ctx.env@.len() && (#[trigger] ctx.env@[j]).0@ == key && (forall|k: int|
                0 <= k < j ==> (#[trigger] ctx.env@[k]).0@ != key) ==> resolve(
                "env:"@ + key,
                ctx,
            ) == Some(ctx.env@[j].1@),
        (forall|k: int| 0 <= k < ctx.env@.len() ==> (#[trigger] ctx.env@[k]).0@ != key) ==> resolve(
            "env:"@ + key,
            ctx,
        ) is None,
{
    reveal_strlit("env:");
    reveal_strlit("workspaceFolder");
    reveal_strlit("workspaceRoot");
    reveal_strlit("workspaceFolderBasename");
    reveal_strlit("userHome");
    reveal_strlit("pathSeparator");
    let name = "env:"@ + key;
    assert(name[0] == 'e');
    assert(name.take(4) =~= seq!['e', 'n', 'v', ':']);
    assert(name.skip(4) =~= key);
    assert(name != "workspaceFolder"@ && name != "workspaceRoot"@) by {
        assert("workspaceFolder"@[0] == 'w');
        assert("workspaceRoot"@[0] == 'w');
    }
    assert(name != "workspaceFolderBasename"@ && name != "userHome"@ && name != "pathSeparator"@
        && name != seq!['/']) by {
        assert("workspaceFolderBasename"@[0] == 'w');
        assert("userHome"@[0] == 'u');
        assert("pathSeparator"@[0] == 'p');
        assert(seq!['/'][0] == '/');
    }
    assert(resolve(name, ctx) == env_lookup(ctx.env@, key, 0));
    assert forall|j: int|
        0 <= j < ctx.env@.len() && (#[trigger] ctx.env@[j]).0@ == key && (forall|k: int|
            0 <= k < j ==> (#[trigger] ctx.env@[k]).0@ != key) implies resolve(name, ctx) == Some(
        ctx.env@[j].1@,
    ) by {
        lemma_env_lookup_first(ctx.env@, key, 0, j);
    }
    if forall|k: int| 0 <= k < ctx.env@.len() ==> (#[trigger] ctx.env@[k]).0@ != key {
        lemma_env_lookup_none(ctx.env@, key, 0);
    }
}

/// A variable that resolves, written at the head of text with no `$` after
/// it, is replaced by its value and leaves the record as it was.
proof fn lemma_leading_variable(
    name: Seq<char>,
    value: Seq<char>,
    rest: Seq<char>,
    ctx: ExpandContext,
    u: Seq<Seq<char>>,
)
    requires
        forall|k: int| 0 <= k < name.len() ==> #[trigger] name[k] != '}',
        forall|k: int| 0 <= k < rest.len() ==> #[trigger] rest[k] != '$',
        resolve(name, ctx) == Some(value),
    ensures
        expansion(seq!['$', '{'] + name + seq!['}'] + rest, ctx, u) == (value + rest, u),
{
    let open = seq!['$', '{'];
    let close = seq!['}'];
    let full = open + name + close + rest;
    let n = name.len() as int;
    let end = 2 + n;
    assert(full.subrange(0, 2) =~= open);
    assert(text::occurs_at(full, open, 0));
    assert(find_pat(full, open, 0) == Some(0int));
    assert(full[end] == '}');
    assert(full.subrange(end, end + 1) =~= close);
    assert(text::occurs_at(full, close, end));
    lemma_find_pat(full, close, 2);
    match find_pat(full, close, 2) {
        Some(j) => {
            assert(text::occurs_at(full, close, j));
            if j < end {
                assert(full.subrange(j, j + 1)[0] == '}');
                assert(full[j] == name[j - 2]);
                assert(name[j - 2] != '}');
            }
            assert(j == end);
        },
        None => {
            assert(false);
        },
    }
    assert(full.subrange(2, end) =~= name);
    lemma_find_pat(full, open, end + 1);
    match find_pat(full, open, end + 1) {
        Some(j) => {
            assert(text::occurs_at(full, open, j));
            assert(full.subrange(j, j + 2)[0] == '$');
            assert(full[j] == rest[j - end - 1]);
            assert(rest[j - end - 1] != '$');
            assert(false);
        },
        None => {},
    }
    assert(full.subrange(end + 1, full.len() as int) =~= rest);
    assert(expand_from(full, end + 1, ctx, u) == (rest, u));
    assert(full.subrange(0, 0) + value + rest =~= value + rest);
}

/// `${workspaceRoot}` and `${workspaceFolder}` expand alike: at the head of
/// a value with no other variable after it, either one is replaced by the
/// project root and nothing is recorded as unresolved.
pub proof fn law_workspace_variables_expand_to_the_root(
    ctx: ExpandContext,
    rest: Seq<char>,
    u: Seq<Seq<char>>,
)
    requires
        forall|k: int| 0 <= k < rest.len() ==> #[trigger] rest[k] != '$',
    ensures
        expansion("${workspaceRoot}"@ + rest, ctx, u) == (ctx.root@ + rest, u),
        expansion("${workspaceFolder}"@ + rest, ctx, u) == (ctx.root@ + rest, u),
{
    reveal_strlit("${workspaceRoot}");
    reveal_strlit("${workspaceFolder}");
    reveal_strlit("workspaceRoot");
    reveal_strlit("workspaceFolder");
    law_both_workspace_spellings_are_the_root(ctx);
    let open = seq!['$', '{'];
    let close = seq!['}'];
    assert("${workspaceRoot}"@ =~= open + "workspaceRoot"@ + close);
    assert("${workspaceFolder}"@ =~= open + "workspaceFolder"@ + close);
    lemma_leading_variable("workspaceRoot"@, ctx.root@, rest, ctx, u);
    lemma_leading_variable("workspaceFolder"@, ctx.root@, rest, ctx, u);
    assert("${workspaceRoot}"@ + rest =~= open + "workspaceRoot"@ + close + rest);
    assert("${workspaceFolder}"@ + rest =~= open + "workspaceFolder"@ + close + rest);
}

fn record_exec(unresolved: &mut Vec<String>, token: String)
    ensures
        views(final(unresolved)@) == record(views(old(unresolved)@), token@),
{
    let mut k: usize = 0;
    while k < unresolved.len()
        invariant
            k <= unresolved@.len(),
            forall|j: int| 0 <= j < k ==> unresolved@[j]@ != token@,
        decreases unresolved.len() - k,
    {
        if text::str_eq(unresolved[k].as_str(), token.as_str()) {
            assert(views(unresolved@)[k as int] == token@);
            return;
        }
        k = k + 1;
    }
    let ghost before = views(unresolved@);
    assert(!before.contains(token@)) by {
        if before.contains(token@) {
            let j = choose|j: int| 0 <= j < before.len() && before[j] == token@;
            assert(unresolved@[j]@ == token@);
        }
    }
    unresolved.push(token);
    assert(views(unresolved@) =~= before.push(token@));
}

/// Expands the `${...}` variables lazydap knows and records, once each, the
/// ones it does not; an unknown variable is left in the text exactly as
/// written.
pub fn expand(raw: &str, ctx: &ExpandContext, unresolved: &mut Vec<String>) -> (r: String)
    ensures
        (r@, views(final(unresolved)@)) == expansion(raw@, *ctx, views(old(unresolved)@)),
{
    let v = text::chars_of(raw);
    let n = v.len();
    let dollar = vec!['$', '{'];
    let close = vec!['}'];
    assert(dollar@ =~= seq!['$', '{']);
    assert(close@ =~= seq!['}']);
    let mut out = String::new();
    let mut pos: usize = 0;
    let ghost u0 = views(unresolved@);
    assert(out@ =~= Seq::<char>::empty());
    while pos <= n
        invariant
            n == v@.len(),
            v@ == raw@,
            pos <= n,
            dollar@ == seq!['$', '{'],
            close@ == seq!['}'],
            u0 == views(old(unresolved)@),
            expansion(raw@, *ctx, u0) == ({
                let rest = expand_from(v@, pos as int, *ctx, views(unresolved@));
                (out@ + rest.0, rest.1)
            }),
        decreases n - pos,
    {
        let start = match find(&v, &dollar, pos) {
            None => {
                let tail = text::string_of_range(&v, pos, n);
                text::push_str(&mut out, tail.as_str());
                return out;
            },
            Some(start) => start,
        };
        let end = match find(&v, &close, start + 2) {
            None => {
                let tail = text::string_of_range(&v, start, n);
                if start + 2 < n && text::is_alpha_char(v[start + 2]) {
                    record_exec(unresolved, tail);
                }
                let rest = text::string_of_range(&v, pos, n);
                text::push_str(&mut out, rest.as_str());
                return out;
            },
            Some(end) => end,
        };
        let name = text::string_of_range(&v, start + 2, end);
        let before = text::string_of_range(&v, pos, start);
        text::push_str(&mut out, before.as_str());
        let ghost u1 = views(unresolved@);
        match resolve_exec(name.as_str(), ctx) {
            Some(value) => {
                text::push_str(&mut out, value.as_str());
            },
            None => {
                let mut token = text::owned("${");
                text::push_str(&mut token, name.as_str());
                text::push_str(&mut token, "}");
                proof {
                    reveal_strlit("${");
                    reveal_strlit("}");
                }
                assert(token@ =~= seq!['$', '{'] + name@ + seq!['}']);
                text::push_str(&mut out, token.as_str());
                record_exec(unresolved, token);
            },
        }
        pos = end + 1;
    }
    out
}

// ---------------------------------------------------------------------------
// One configuration.
// ---------------------------------------------------------------------------

/// One `{name, value}` entry of cppdbg's `environment` array.
#[derive(Debug, Clone, PartialEq, Eq)]
pub struct EnvPair {
    pub name: String,
    pub value: String,
}

/// `args` as either debugger spells it: a list, or one shell-style string.
#[derive(Debug, Clone, PartialEq, Eq)]
pub enum Arguments {
    List(Vec<String>),
    Line(String),
}

/// `python` as debugpy's schema allows it: a path, or a list whose head is
/// the interpreter and whose tail is flags for it.
#[derive(Debug, Clone, PartialEq, Eq)]
pub enum Interpreter {
    Path(String),
    Argv(Vec<String>),
}

pub open spec fn interpreter_path(p: Option<Interpreter>) -> Option<Seq<char>> {
    match p {
        Some(Interpreter::Path(path)) => Some(path@),
        Some(Interpreter::Argv(argv)) => if argv@.len() > 0 {
            Some(argv@[0]@)
        } else {
            None
        },
        None => None,
    }
}

impl Interpreter {
    /// The interpreter: the path, or the head of the list. The tail is
    /// dropped, since lazydap runs it as `<python> -m debugpy.adapter`.
    pub fn path(&self) -> (r: Option<String>)
        ensures
            opt_string(r) == interpreter_path(Some(*self)),
    {
        match self {
            Interpreter::Path(path) => Some(path.clone()),
            Interpreter::Argv(argv) => if argv.len() > 0 {
                Some(argv[0].clone())
            } else {
                None
            },
        }
    }
}

/// The part of one VS Code configuration lazydap reads. Everything else in
/// the file (`compounds`, `preLaunchTask`, `MIMode`, ...) is VS Code's.
#[derive(Debug, Clone, PartialEq, Eq)]
pub struct VsCodeConfig {
    pub name: String,
    /// The `type` key.
    pub adapter_type: String,
    pub request: String,
    pub program: Option<String>,
    pub args: Arguments,
    pub cwd: Option<String>,
    /// codelldb's spelling of the environment: a map, in key order.
    pub env: Vec<(String, String)>,
    /// cppdbg's spelling of the same thing.
    pub environment: Vec<EnvPair>,
    pub stop_on_entry: bool,
    /// cppdbg's spelling of `stop_on_entry`.
    pub stop_at_entry: bool,
    /// delve's launch mode.
    pub mode: Option<String>,
    /// debugpy's interpreter pin.
    pub python: Option<Interpreter>,
    /// The older spelling of the pin; `python` wins when both are there.
    pub python_path: Option<String>,
}

pub open spec fn request_kind(request: Seq<char>) -> Option<LaunchKind> {
    if request == "launch"@ {
        Some(LaunchKind::Launch)
    } else if request == "attach"@ {
        Some(LaunchKind::Attach)
    } else {
        None
    }
}

/// The adapter for a `type`: the VS Code Python extension has used both
/// `python` and `debugpy`, the Go extension writes `go`, and a cppdbg
/// configuration describes a native program codelldb can run.
pub open spec fn adapter_for_type(t: Seq<char>) -> Option<AdapterKind> {
    if t == "lldb"@ || t == "cppdbg"@ {
        Some(AdapterKind::Codelldb)
    } else if t == "debugpy"@ || t == "python"@ {
        Some(AdapterKind::Debugpy)
    } else if t == "go"@ {
        Some(AdapterKind::Delve)
    } else {
        None
    }
}

/// A path from the file as an absolute one: relative to the workspace
/// folder, as VS Code resolves it. Not canonicalised.
pub open spec fn absolute(path: Seq<char>, root: Seq<char>) -> Seq<char> {
    pathname::join(root, path)
}

/// Whether a program path names a `.go` source rather than a binary.
pub open spec fn go_source(program: Seq<char>) -> bool {
    pathname::extension(program) == Some(seq!['g', 'o'])
}

/// Why a `type: go` configuration will not be run: `test` mode is not run
/// yet, and `exec` (a prebuilt binary) naming a `.go` source contradicts
/// itself.
pub open spec fn delve_block(mode: Option<Seq<char>>, program: Option<Seq<char>>) -> Option<
    NotRunnableView,
> {
    if mode == Some("test"@) {
        Some(
            NotRunnableView::DelveMode(
                "it uses delve's `test` mode, which lazydap does not run yet"@,
            ),
        )
    } else if mode == Some("exec"@) && (program matches Some(p) && go_source(p)) {
        Some(
            NotRunnableView::DelveMode(
                "it uses delve's `exec` mode, which runs a prebuilt binary, but names a `.go` source"@,
            ),
        )
    } else {
        None
    }
}

/// Expands and makes absolute an optional path.
pub open spec fn expand_path(o: Option<Seq<char>>, ctx: ExpandContext, u: Seq<Seq<char>>) -> (
    Option<Seq<char>>,
    Seq<Seq<char>>,
) {
    match o {
        Some(p) => {
            let e = expansion(p, ctx, u);
            (Some(absolute(e.0, ctx.root@)), e.1)
        },
        None => (None, u),
    }
}

/// Expands each of `items` in turn.
pub open spec fn expand_values(items: Seq<Seq<char>>, ctx: ExpandContext, u: Seq<Seq<char>>) -> (
    Seq<Seq<char>>,
    Seq<Seq<char>>,
)
    decreases items.len(),
{
    if items.len() == 0 {
        (Seq::empty(), u)
    } else {
        let front = expand_values(items.drop_last(), ctx, u);
        let e = expansion(items.last(), ctx, front.1);
        (front.0.push(e.0), e.1)
    }
}

/// The first position of `key` in an environment.
pub open spec fn key_index(m: Seq<(Seq<char>, Seq<char>)>, key: Seq<char>, from: int) -> Option<int>
    decreases m.len() - from,
{
    if from < 0 || from >= m.len() {
        None
    } else if m[from].0 == key {
        Some(from)
    } else {
        key_index(m, key, from + 1)
    }
}

/// Whether `a` sorts before `b` from position `i` on, as `String`'s order
/// does: at the first character where they differ, by that character, and
/// a text that runs out first sorts first. (UTF-8 orders bytes as the
/// characters they encode are ordered, so comparing characters is
/// comparing bytes.)
pub open spec fn text_less_from(a: Seq<char>, b: Seq<char>, i: int) -> bool
    decreases a.len() - i,
{
    if i < 0 {
        false
    } else if i >= a.len() {
        i < b.len()
    } else if i >= b.len() {
        false
    } else if a[i] != b[i] {
        a[i] < b[i]
    } else {
        text_less_from(a, b, i + 1)
    }
}

/// Whether `a` sorts before `b`.
pub open spec fn text_less(a: Seq<char>, b: Seq<char>) -> bool {
    text_less_from(a, b, 0)
}

/// An environment whose names are in order, each once.
pub open spec fn keys_sorted(m: Seq<(Seq<char>, Seq<char>)>) -> bool {
    forall|i: int, j: int| 0 <= i < j < m.len() ==> text_less(#[trigger] m[i].0, #[trigger] m[j].0)
}

/// Where a name that is not in an environment goes: before the first name,
/// from `from` on, that sorts after it; at the end if none does.
pub open spec fn insert_at(m: Seq<(Seq<char>, Seq<char>)>, key: Seq<char>, from: int) -> int
    decreases m.len() - from,
{
    if from < 0 || from >= m.len() {
        m.len() as int
    } else if text_less(key, m[from].0) {
        from
    } else {
        insert_at(m, key, from + 1)
    }
}

/// An environment with `key` set to `value`: replaced where it is, and
/// otherwise put in its place in name order, as a `BTreeMap` holds it.
pub open spec fn env_set(m: Seq<(Seq<char>, Seq<char>)>, key: Seq<char>, value: Seq<char>) -> Seq<
    (Seq<char>, Seq<char>),
> {
    match key_index(m, key, 0) {
        Some(i) => m.update(i, (key, value)),
        None => m.insert(insert_at(m, key, 0), (key, value)),
    }
}

proof fn lemma_text_less_irreflexive(a: Seq<char>, i: int)
    requires
        0 <= i,
    ensures
        !text_less_from(a, a, i),
    decreases a.len() - i,
{
    if i < a.len() {
        lemma_text_less_irreflexive(a, i + 1);
    }
}

proof fn lemma_text_less_trans(a: Seq<char>, b: Seq<char>, c: Seq<char>, i: int)
    requires
        0 <= i,
        text_less_from(a, b, i),
        text_less_from(b, c, i),
    ensures
        text_less_from(a, c, i),
    decreases a.len() - i,
{
    if i < a.len() && a[i] == b[i] && b[i] == c[i] {
        lemma_text_less_trans(a, b, c, i + 1);
    }
}

proof fn lemma_text_less_total(a: Seq<char>, b: Seq<char>, i: int)
    requires
        0 <= i <= a.len(),
        i <= b.len(),
        !text_less_from(a, b, i),
        !text_less_from(b, a, i),
    ensures
        a.len() == b.len(),
        forall|j: int| i <= j < a.len() ==> a[j] == b[j],
    decreases a.len() - i,
{
    if i < a.len() && i < b.len() {
        if a[i] == b[i] {
            lemma_text_less_total(a, b, i + 1);
        }
    }
}

/// Two different names: one sorts before the other.
proof fn lemma_text_less_connex(a: Seq<char>, b: Seq<char>)
    requires
        a != b,
    ensures
        text_less(a, b) || text_less(b, a),
{
    if !text_less(a, b) && !text_less(b, a) {
        lemma_text_less_total(a, b, 0);
        assert(a =~= b);
    }
}

proof fn lemma_key_index_none(m: Seq<(Seq<char>, Seq<char>)>, key: Seq<char>, from: int)
    requires
        0 <= from,
        key_index(m, key, from) is None,
    ensures
        forall|i: int| from <= i < m.len() ==> m[i].0 != key,
    decreases m.len() - from,
{
    if from < m.len() {
        lemma_key_index_none(m, key, from + 1);
    }
}

proof fn lemma_key_index_some(m: Seq<(Seq<char>, Seq<char>)>, key: Seq<char>, from: int)
    requires
        0 <= from,
    ensures
        key_index(m, key, from) matches Some(i) ==> from <= i < m.len() && m[i].0 == key,
    decreases m.len() - from,
{
    if from < m.len() {
        lemma_key_index_some(m, key, from + 1);
    }
}

proof fn lemma_insert_at(m: Seq<(Seq<char>, Seq<char>)>, key: Seq<char>, from: int)
    requires
        0 <= from <= m.len(),
    ensures
        from <= insert_at(m, key, from) <= m.len(),
        forall|i: int| from <= i < insert_at(m, key, from) ==> !text_less(key, #[trigger] m[i].0),
        insert_at(m, key, from) < m.len() ==> text_less(key, m[insert_at(m, key, from)].0),
    decreases m.len() - from,
{
    if from < m.len() && !text_less(key, m[from].0) {
        lemma_insert_at(m, key, from + 1);
    }
}

/// Setting a name keeps an environment in name order, each name once.
proof fn lemma_env_set_sorted(m: Seq<(Seq<char>, Seq<char>)>, key: Seq<char>, value: Seq<char>)
    requires
        keys_sorted(m),
    ensures
        keys_sorted(env_set(m, key, value)),
{
    lemma_key_index_some(m, key, 0);
    match key_index(m, key, 0) {
        Some(k) => {
            let r = m.update(k, (key, value));
            assert forall|i: int, j: int| 0 <= i < j < r.len() implies text_less(
                #[trigger] r[i].0,
                #[trigger] r[j].0,
            ) by {
                assert(r[i].0 == m[i].0);
                assert(r[j].0 == m[j].0);
                assert(text_less(m[i].0, m[j].0));
            }
        },
        None => {
            lemma_key_index_none(m, key, 0);
            lemma_insert_at(m, key, 0);
            let p = insert_at(m, key, 0);
            let r = m.insert(p, (key, value));
            assert forall|i: int| 0 <= i < p implies text_less(#[trigger] m[i].0, key) by {
                assert(!text_less(key, m[i].0));
                assert(m[i].0 != key);
                lemma_text_less_connex(m[i].0, key);
            }
            assert forall|j: int| p <= j < m.len() implies text_less(key, #[trigger] m[j].0) by {
                if j > p {
                    assert(text_less(m[p].0, m[j].0));
                    lemma_text_less_trans(key, m[p].0, m[j].0, 0);
                }
            }
            assert forall|i: int, j: int| 0 <= i < j < r.len() implies text_less(
                #[trigger] r[i].0,
                #[trigger] r[j].0,
            ) by {
                if j < p {
                    assert(r[i] == m[i] && r[j] == m[j]);
                    assert(text_less(m[i].0, m[j].0));
                } else if j == p {
                    assert(r[i] == m[i]);
                    assert(text_less(m[i].0, key));
                } else if i < p {
                    assert(r[i] == m[i] && r[j] == m[j - 1]);
                    assert(text_less(m[i].0, key));
                    assert(text_less(key, m[j - 1].0));
                    lemma_text_less_trans(m[i].0, key, m[j - 1].0, 0);
                } else if i == p {
                    assert(r[j] == m[j - 1]);
                    assert(text_less(key, m[j - 1].0));
                } else {
                    assert(r[i] == m[i - 1] && r[j] == m[j - 1]);
                    assert(text_less(m[i - 1].0, m[j - 1].0));
                }
            }
        },
    }
}

/// The environment that setting each pair in turn gives: a later pair for
/// the same name wins, and the names are kept in order, as a `BTreeMap`
/// keeps them.
pub open spec fn env_of(pairs: Seq<(Seq<char>, Seq<char>)>) -> Seq<(Seq<char>, Seq<char>)>
    decreases pairs.len(),
{
    if pairs.len() == 0 {
        Seq::empty()
    } else {
        env_set(env_of(pairs.drop_last()), pairs.last().0, pairs.last().1)
    }
}

/// Every environment built from pairs is in name order, each name once.
pub proof fn law_env_is_in_name_order(pairs: Seq<(Seq<char>, Seq<char>)>)
    ensures
        keys_sorted(env_of(pairs)),
    decreases pairs.len(),
{
    if pairs.len() > 0 {
        law_env_is_in_name_order(pairs.drop_last());
        lemma_env_set_sorted(env_of(pairs.drop_last()), pairs.last().0, pairs.last().1);
    }
}

pub open spec fn pair_views(pairs: Seq<(String, String)>) -> Seq<(Seq<char>, Seq<char>)> {
    pairs.map_values(|p: (String, String)| (p.0@, p.1@))
}

/// Names, then values, of both spellings of the environment: cppdbg's array
/// first, so codelldb's map wins a collision.
pub open spec fn env_keys(c: VsCodeConfig) -> Seq<Seq<char>> {
    c.environment@.map_values(|p: EnvPair| p.name@) + c.env@.map_values(
        |p: (String, String)| p.0@,
    )
}

pub open spec fn env_values(c: VsCodeConfig) -> Seq<Seq<char>> {
    c.environment@.map_values(|p: EnvPair| p.value@) + c.env@.map_values(
        |p: (String, String)| p.1@,
    )
}

pub open spec fn zip(keys: Seq<Seq<char>>, values: Seq<Seq<char>>) -> Seq<(Seq<char>, Seq<char>)> {
    Seq::new(keys.len(), |i: int| (keys[i], values[i]))
}

pub open spec fn quoted_name(c: VsCodeConfig) -> Seq<char> {
    "`"@ + c.name@ + "`"@
}

pub open spec fn skipped_warning(c: VsCodeConfig) -> Seq<char> {
    quoted_name(c) + " asks for request `"@ + c.request@
        + "`, which is neither launch nor attach; skipped"@
}

pub open spec fn cppdbg_warning(c: VsCodeConfig) -> Seq<char> {
    quoted_name(c)
        + " is a cppdbg configuration; lazydap runs it under codelldb, which reads its program, arguments, working directory, environment and stopAtEntry, but not its MIMode, miDebuggerPath or setupCommands"@
}

pub open spec fn split_warning(c: VsCodeConfig, problem: Seq<char>) -> Seq<char> {
    quoted_name(c) + " has an argument string that cannot be split: "@ + problem
}

pub open spec fn unresolved_warning(c: VsCodeConfig, unresolved: Seq<Seq<char>>) -> Seq<char> {
    quoted_name(c) + " uses "@ + crate::launch::join_texts(unresolved)
        + ", which nothing here can expand; it is left as written"@
}

/// What one configuration becomes, field by field, with the warnings it
/// gives (a configuration whose request is neither launch nor attach gives
/// only the warning).
pub struct Mapping {
    pub adapter_command: Option<Seq<char>>,
    pub program: Option<Seq<char>>,
    pub cwd: Option<Seq<char>>,
    pub env: Seq<(Seq<char>, Seq<char>)>,
    pub args: Seq<Seq<char>>,
    pub blocked: Option<NotRunnableView>,
    pub unresolved: Seq<Seq<char>>,
    pub warnings: Seq<Seq<char>>,
}

/// The mapping: the interpreter pin, the program and the working directory
/// are expanded and made absolute, then the environment values and the
/// arguments are expanded, in that order, each recording the variables
/// nothing could expand.
pub open spec fn mapping(c: VsCodeConfig, ctx: ExpandContext) -> Mapping {
    let command = match interpreter_path(c.python) {
        Some(p) => Some(p),
        None => opt_string(c.python_path),
    };
    let a = expand_path(command, ctx, Seq::empty());
    let p = expand_path(opt_string(c.program), ctx, a.1);
    let w = expand_path(opt_string(c.cwd), ctx, p.1);
    let e = expand_values(env_values(c), ctx, w.1);
    let first = if c.adapter_type@ == "cppdbg"@ {
        seq![cppdbg_warning(c)]
    } else {
        Seq::empty()
    };
    let (args, blocked, u, split_warnings) = match c.args {
        Arguments::List(items) => {
            let x = expand_values(views(items@), ctx, e.1);
            (x.0, None, x.1, Seq::<Seq<char>>::empty())
        },
        Arguments::Line(line) => {
            let x = expansion(line@, ctx, e.1);
            match split(x.0) {
                Ok(args) => (args, None, x.1, Seq::<Seq<char>>::empty()),
                Err(problem) => (
                    Seq::empty(),
                    Some(NotRunnableView::BadArguments(problem)),
                    x.1,
                    seq![split_warning(c, problem)],
                ),
            }
        },
    };
    let mode_block = if adapter_for_type(c.adapter_type@) == Some(AdapterKind::Delve) {
        delve_block(opt_string(c.mode), opt_string(c.program))
    } else {
        None
    };
    Mapping {
        adapter_command: a.0,
        program: p.0,
        cwd: w.0,
        env: env_of(zip(env_keys(c), e.0)),
        args,
        blocked: match blocked {
            Some(b) => Some(b),
            None => mode_block,
        },
        unresolved: u,
        warnings: first + split_warnings + if u.len() > 0 {
            seq![unresolved_warning(c, u)]
        } else {
            Seq::empty()
        },
    }
}

pub open spec fn opt_reason(o: Option<NotRunnable>) -> Option<NotRunnableView> {
    match o {
        Some(r) => Some(r@),
        None => None,
    }
}

/// Whether `lc` is what `c` becomes.
pub open spec fn imported_as(lc: LaunchConfig, c: VsCodeConfig, ctx: ExpandContext) -> bool {
    let m = mapping(c, ctx);
    &&& request_kind(c.request@) == Some(lc.kind)
    &&& lc.name@ == c.name@
    &&& lc.adapter == adapter_for_type(c.adapter_type@)
    &&& lc.adapter_type@ == c.adapter_type@
    &&& opt_string(lc.program) == m.program
    &&& views(lc.args@) == m.args
    &&& opt_string(lc.cwd) == m.cwd
    &&& pair_views(lc.env@) == m.env
    &&& lc.stop_on_entry == (c.stop_on_entry || c.stop_at_entry)
    &&& opt_string(lc.adapter_command) == m.adapter_command
    &&& lc.source == LaunchConfigSource::VsCodeLaunchJson
    &&& views(lc.unresolved@) == m.unresolved
    &&& opt_reason(lc.blocked) == m.blocked
}

fn expand_path_exec(o: &Option<String>, ctx: &ExpandContext, u: &mut Vec<String>) -> (r: Option<
    String,
>)
    ensures
        (opt_string(r), views(final(u)@)) == expand_path(opt_string(*o), *ctx, views(old(u)@)),
{
    match o {
        Some(p) => {
            let e = expand(p.as_str(), ctx, u);
            Some(pathname::join_path(ctx.root.as_str(), e.as_str()))
        },
        None => None,
    }
}

fn expand_each(items: &Vec<String>, ctx: &ExpandContext, u: &mut Vec<String>) -> (r: Vec<String>)
    ensures
        (views(r@), views(final(u)@)) == expand_values(views(items@), *ctx, views(old(u)@)),
{
    let ghost u0 = views(u@);
    let mut r: Vec<String> = Vec::new();
    let mut i: usize = 0;
    assert(views(items@).take(0) =~= Seq::<Seq<char>>::empty());
    assert(views(r@) =~= Seq::<Seq<char>>::empty());
    while i < items.len()
        invariant
            i <= items@.len(),
            u0 == views(old(u)@),
            (views(r@), views(u@)) == expand_values(views(items@).take(i as int), *ctx, u0),
        decreases items.len() - i,
    {
        let e = expand(items[i].as_str(), ctx, u);
        let ghost before = views(r@);
        r.push(e);
        assert(views(items@).take(i + 1).drop_last() =~= views(items@).take(i as int));
        assert(views(r@) =~= before.push(e@));
        i = i + 1;
    }
    assert(views(items@).take(items@.len() as int) =~= views(items@));
    r
}

/// Whether `a` sorts before `b`, as `String`'s order has it.
pub fn text_less_exec(a: &str, b: &str) -> (r: bool)
    ensures
        r == text_less(a@, b@),
{
    let av = text::chars_of(a);
    let bv = text::chars_of(b);
    let mut i: usize = 0;
    while i < av.len() && i < bv.len() && av[i] == bv[i]
        invariant
            av@ == a@,
            bv@ == b@,
            i <= av@.len(),
            i <= bv@.len(),
            text_less(a@, b@) == text_less_from(a@, b@, i as int),
        decreases av.len() - i,
    {
        i = i + 1;
    }
    if i >= av.len() {
        i < bv.len()
    } else if i >= bv.len() {
        false
    } else {
        av[i] < bv[i]
    }
}

/// Sets `key` in an environment: replaced where it is, and otherwise put in
/// its place in name order.
pub fn set_env_pub(env: &mut Vec<(String, String)>, key: String, value: String)
    ensures
        pair_views(final(env)@) == env_set(pair_views(old(env)@), key@, value@),
{
    let ghost pv = pair_views(env@);
    let mut k: usize = 0;
    while k < env.len()
        invariant
            k <= env@.len(),
            pv == pair_views(env@),
            pv == pair_views(old(env)@),
            key_index(pv, key@, 0) == key_index(pv, key@, k as int),
        decreases env.len() - k,
    {
        if text::str_eq(env[k].0.as_str(), key.as_str()) {
            assert(pv[k as int].0 == key@);
            env.set(k, (key, value));
            assert(pair_views(env@) =~= pv.update(k as int, (key@, value@)));
            return;
        }
        k = k + 1;
    }
    let mut p: usize = 0;
    while p < env.len() && !text_less_exec(key.as_str(), env[p].0.as_str())
        invariant
            p <= env@.len(),
            pv == pair_views(env@),
            insert_at(pv, key@, 0) == insert_at(pv, key@, p as int),
        decreases env.len() - p,
    {
        assert(pv[p as int].0 == env@[p as int].0@);
        p = p + 1;
    }
    proof {
        if p < env@.len() {
            assert(pv[p as int].0 == env@[p as int].0@);
        }
    }
    env.insert(p, (key, value));
    assert(pair_views(env@) =~= pv.insert(p as int, (key@, value@)));
}

/// Both spellings of the environment as one list of pairs, the array first.
fn env_entries(c: &VsCodeConfig) -> (r: Vec<(String, String)>)
    ensures
        r@.len() == env_keys(*c).len(),
        env_keys(*c).len() == env_values(*c).len(),
        forall|i: int|
            0 <= i < r@.len() ==> #[trigger] r@[i].0@ == env_keys(*c)[i] && r@[i].1@
                == env_values(*c)[i],
{
    let mut r: Vec<(String, String)> = Vec::new();
    let mut i: usize = 0;
    while i < c.environment.len()
        invariant
            i <= c.environment@.len(),
            r@.len() == i,
            forall|j: int|
                #![trigger r@[j]]
                0 <= j < i ==> r@[j].0@ == c.environment@[j].name@ && r@[j].1@
                    == c.environment@[j].value@,
        decreases c.environment.len() - i,
    {
        let pair = (c.environment[i].name.clone(), c.environment[i].value.clone());
        r.push(pair);
        assert(r@[i as int] == pair);
        i = i + 1;
    }
    let a = c.environment.len();
    let mut j: usize = 0;
    while j < c.env.len()
        invariant
            a == c.environment@.len(),
            j <= c.env@.len(),
            r@.len() == a + j,
            forall|k: int|
                #![trigger r@[k]]
                0 <= k < a ==> r@[k].0@ == c.environment@[k].name@ && r@[k].1@
                    == c.environment@[k].value@,
            forall|k: int|
                #![trigger r@[k]]
                a <= k < a + j ==> r@[k].0@ == c.env@[k - a].0@ && r@[k].1@
                    == c.env@[k - a].1@,
        decreases c.env.len() - j,
    {
        let pair = (c.env[j].0.clone(), c.env[j].1.clone());
        r.push(pair);
        assert(r@[a + j] == pair);
        j = j + 1;
    }
    assert forall|i: int| 0 <= i < r@.len() implies #[trigger] r@[i].0@ == env_keys(*c)[i]
        && r@[i].1@ == env_values(*c)[i] by {
        if i >= a {
            assert(r@[i].0@ == c.env@[i - a].0@);
        } else {
            assert(r@[i].0@ == c.environment@[i].name@);
        }
    }
    r
}

/// The merged, expanded environment.
fn build_env(c: &VsCodeConfig, ctx: &ExpandContext, u: &mut Vec<String>) -> (r: Vec<
    (String, String),
>)
    ensures
        ({
            let e = expand_values(env_values(*c), *ctx, views(old(u)@));
            pair_views(r@) == env_of(zip(env_keys(*c), e.0)) && views(final(u)@) == e.1
        }),
{
    let entries = env_entries(c);
    let ghost keys = env_keys(*c);
    let ghost vals = env_values(*c);
    let ghost u0 = views(u@);
    let ghost mut done: Seq<Seq<char>> = Seq::empty();
    let mut env: Vec<(String, String)> = Vec::new();
    let mut i: usize = 0;
    assert(vals.take(0) =~= Seq::<Seq<char>>::empty());
    assert(zip(keys.take(0), done) =~= Seq::<(Seq<char>, Seq<char>)>::empty());
    assert(pair_views(env@) =~= Seq::<(Seq<char>, Seq<char>)>::empty());
    while i < entries.len()
        invariant
            i <= entries@.len(),
            entries@.len() == keys.len(),
            keys.len() == vals.len(),
            keys == env_keys(*c),
            vals == env_values(*c),
            u0 == views(old(u)@),
            forall|k: int|
                0 <= k < entries@.len() ==> #[trigger] entries@[k].0@ == keys[k] && entries@[k].1@
                    == vals[k],
            (done, views(u@)) == expand_values(vals.take(i as int), *ctx, u0),
            done.len() == i,
            pair_views(env@) == env_of(zip(keys.take(i as int), done)),
        decreases entries.len() - i,
    {
        let e = expand(entries[i].1.as_str(), ctx, u);
        let ghost ev = e@;
        set_env_pub(&mut env, entries[i].0.clone(), e);
        proof {
            assert(vals.take(i + 1).drop_last() =~= vals.take(i as int));
            let z1 = zip(keys.take(i + 1), done.push(ev));
            assert(z1.drop_last() =~= zip(keys.take(i as int), done));
            assert(z1.last() == (keys[i as int], ev));
            done = done.push(ev);
        }
        i = i + 1;
    }
    assert(vals.take(vals.len() as int) =~= vals);
    assert(keys.take(keys.len() as int) =~= keys);
    env
}

fn quoted(c: &VsCodeConfig) -> (r: String)
    ensures
        r@ == quoted_name(*c),
{
    let mut r = text::owned("`");
    text::push_str(&mut r, c.name.as_str());
    text::push_str(&mut r, "`");
    r
}

fn delve_mode_block(mode: &Option<String>, program: &Option<String>) -> (r: Option<NotRunnable>)
    ensures
        opt_reason(r) == delve_block(opt_string(*mode), opt_string(*program)),
{
    let m = match mode {
        Some(m) => m,
        None => return None,
    };
    if text::str_eq(m.as_str(), "test") {
        return Some(
            NotRunnable::DelveMode {
                problem: text::owned("it uses delve's `test` mode, which lazydap does not run yet"),
            },
        );
    }
    if text::str_eq(m.as_str(), "exec") {
        if let Some(p) = program {
            if let Some(ext) = pathname::path_extension(p.as_str()) {
                proof {
                    reveal_strlit("go");
                }
                assert("go"@ =~= seq!['g', 'o']);
                if text::str_eq(ext.as_str(), "go") {
                    return Some(
                        NotRunnable::DelveMode {
                            problem: text::owned(
                                "it uses delve's `exec` mode, which runs a prebuilt binary, but names a `.go` source",
                            ),
                        },
                    );
                }
            }
        }
    }
    None
}

fn adapter_of(t: &str) -> (r: Option<AdapterKind>)
    ensures
        r == adapter_for_type(t@),
{
    if text::str_eq(t, "lldb") || text::str_eq(t, "cppdbg") {
        Some(AdapterKind::Codelldb)
    } else if text::str_eq(t, "debugpy") || text::str_eq(t, "python") {
        Some(AdapterKind::Debugpy)
    } else if text::str_eq(t, "go") {
        Some(AdapterKind::Delve)
    } else {
        None
    }
}

/// One VS Code configuration as a lazydap one, or `None` (with a warning)
/// when it is not a debug configuration at all.
pub fn map(config: &VsCodeConfig, ctx: &ExpandContext, warnings: &mut Vec<String>) -> (r: Option<
    LaunchConfig,
>)
    ensures
        match request_kind(config.request@) {
            None => r is None && views(final(warnings)@) == views(old(warnings)@).push(
                skipped_warning(*config),
            ),
            Some(_) => r matches Some(lc) && imported_as(lc, *config, *ctx) && views(
                final(warnings)@,
            ) == views(old(warnings)@) + mapping(*config, *ctx).warnings,
        },
{
    let ghost w0 = views(warnings@);
    let ghost m = mapping(*config, *ctx);
    let kind = if text::str_eq(config.request.as_str(), "launch") {
        LaunchKind::Launch
    } else if text::str_eq(config.request.as_str(), "attach") {
        LaunchKind::Attach
    } else {
        let mut w = quoted(config);
        text::push_str(&mut w, " asks for request `");
        text::push_str(&mut w, config.request.as_str());
        text::push_str(&mut w, "`, which is neither launch nor attach; skipped");
        warnings.push(w);
        assert(views(warnings@) =~= w0.push(skipped_warning(*config)));
        return None;
    };
    let adapter = adapter_of(config.adapter_type.as_str());
    let mut first: Vec<String> = Vec::new();
    if text::str_eq(config.adapter_type.as_str(), "cppdbg") {
        let mut w = quoted(config);
        text::push_str(
            &mut w,
            " is a cppdbg configuration; lazydap runs it under codelldb, which reads its program, arguments, working directory, environment and stopAtEntry, but not its MIMode, miDebuggerPath or setupCommands",
        );
        first.push(w);
    }
    assert(views(first@) =~= (if config.adapter_type@ == "cppdbg"@ {
        seq![cppdbg_warning(*config)]
    } else {
        Seq::empty()
    }));
    let mode_block = match adapter {
        Some(AdapterKind::Delve) => delve_mode_block(&config.mode, &config.program),
        _ => None,
    };
    let mut unresolved: Vec<String> = Vec::new();
    assert(views(unresolved@) =~= Seq::<Seq<char>>::empty());
    let command: Option<String> = match &config.python {
        Some(interpreter) => match interpreter.path() {
            Some(p) => Some(p),
            None => config.python_path.clone(),
        },
        None => config.python_path.clone(),
    };
    let adapter_command = expand_path_exec(&command, ctx, &mut unresolved);
    let program = expand_path_exec(&config.program, ctx, &mut unresolved);
    let cwd = expand_path_exec(&config.cwd, ctx, &mut unresolved);
    let env = build_env(config, ctx, &mut unresolved);
    let mut later: Vec<String> = Vec::new();
    let (args, blocked) = match &config.args {
        Arguments::List(items) => (expand_each(items, ctx, &mut unresolved), None),
        Arguments::Line(line) => {
            let x = expand(line.as_str(), ctx, &mut unresolved);
            match split_arguments(x.as_str()) {
                Ok(a) => (a, None),
                Err(problem) => {
                    let mut w = quoted(config);
                    text::push_str(&mut w, " has an argument string that cannot be split: ");
                    text::push_str(&mut w, problem.as_str());
                    later.push(w);
                    (Vec::new(), Some(NotRunnable::BadArguments { problem }))
                },
            }
        },
    };
    if unresolved.len() > 0 {
        let mut w = quoted(config);
        text::push_str(&mut w, " uses ");
        crate::launch::push_joined(&mut w, &unresolved);
        text::push_str(&mut w, ", which nothing here can expand; it is left as written");
        later.push(w);
    }
    let mut k: usize = 0;
    while k < first.len()
        invariant
            k <= first@.len(),
            views(warnings@) == w0 + views(first@).take(k as int),
        decreases first.len() - k,
    {
        let ghost before = views(warnings@);
        warnings.push(first[k].clone());
        assert(views(warnings@) =~= before.push(first@[k as int]@));
        assert(views(first@).take(k + 1) =~= views(first@).take(k as int).push(first@[k as int]@));
        k = k + 1;
        assert(views(warnings@) =~= w0 + views(first@).take(k as int));
    }
    assert(views(first@).take(first@.len() as int) =~= views(first@));
    let ghost w1 = views(warnings@);
    let mut k: usize = 0;
    while k < later.len()
        invariant
            k <= later@.len(),
            views(warnings@) == w1 + views(later@).take(k as int),
        decreases later.len() - k,
    {
        let ghost before = views(warnings@);
        warnings.push(later[k].clone());
        assert(views(warnings@) =~= before.push(later@[k as int]@));
        assert(views(later@).take(k + 1) =~= views(later@).take(k as int).push(later@[k as int]@));
        k = k + 1;
        assert(views(warnings@) =~= w1 + views(later@).take(k as int));
    }
    assert(views(later@).take(later@.len() as int) =~= views(later@));
    let blocked = match blocked {
        Some(b) => Some(b),
        None => mode_block,
    };
    let lc = LaunchConfig {
        name: config.name.clone(),
        adapter,
        adapter_type: config.adapter_type.clone(),
        kind,
        program,
        args,
        cwd,
        env,
        stop_on_entry: config.stop_on_entry || config.stop_at_entry,
        adapter_command,
        source: LaunchConfigSource::VsCodeLaunchJson,
        unresolved,
        blocked,
    };
    assert(views(warnings@) =~= w0 + m.warnings);
    Some(lc)
}

// ---------------------------------------------------------------------------
// The whole file.
// ---------------------------------------------------------------------------

/// Why a `launch.json` could not be imported.
#[derive(Debug, Clone, PartialEq, Eq)]
pub enum LaunchJsonError {
    /// The file is there and could not be read.
    Read { path: String, message: String },
    /// The file is not JSON once its comments are gone.
    Parse { path: String, message: String },
    /// Refused before the JSON parser saw it: an unterminated comment or
    /// string, which VS Code refuses too.
    Malformed { path: String, problem: String },
}

pub open spec fn launch_json_error_text(e: LaunchJsonError) -> Seq<char> {
    match e {
        LaunchJsonError::Read { path, message } => "cannot read "@ + path@ + ": "@ + message@,
        LaunchJsonError::Parse { path, message } => path@ + " is not valid launch.json: "@
            + message@,
        LaunchJsonError::Malformed { path, problem } => path@ + " is not valid launch.json: "@
            + problem@,
    }
}

impl LaunchJsonError {
    pub fn to_string(&self) -> (r: String)
        ensures
            r@ == launch_json_error_text(*self),
    {
        match self {
            LaunchJsonError::Read { path, message } => {
                let mut r = text::owned("cannot read ");
                text::push_str(&mut r, path.as_str());
                text::push_str(&mut r, ": ");
                text::push_str(&mut r, message.as_str());
                r
            },
            LaunchJsonError::Parse { path, message } => {
                let mut r = path.clone();
                text::push_str(&mut r, " is not valid launch.json: ");
                text::push_str(&mut r, message.as_str());
                r
            },
            LaunchJsonError::Malformed { path, problem } => {
                let mut r = path.clone();
                text::push_str(&mut r, " is not valid launch.json: ");
                text::push_str(&mut r, problem.as_str());
                r
            },
        }
    }
}

/// The body of the file at `path` as plain JSON, or why it is malformed.
pub fn strip_file(path: &str, body: &str) -> (r: Result<String, LaunchJsonError>)
    ensures
        match strip(body@) {
            Ok(o) => r matches Ok(s) && s@ == o,
            Err(problem) => r matches Err(LaunchJsonError::Malformed { path: p, problem: m })
                && p@ == path@ && m@ == problem,
        },
{
    match strip_jsonc(body) {
        Ok(s) => Ok(s),
        Err(problem) => Err(LaunchJsonError::Malformed { path: text::owned(path), problem }),
    }
}

/// What one `launch.json` yielded: the configurations, and what happened to
/// the ones that did not make it. A file with one unreadable configuration
/// and three good ones gives the three.
#[derive(Debug, PartialEq, Eq)]
pub struct Imported {
    pub configs: Vec<LaunchConfig>,
    pub warnings: Vec<String>,
}

impl Default for Imported {
    fn default() -> (r: Imported)
        ensures
            r.configs@.len() == 0,
            r.warnings@.len() == 0,
    {
        Imported { configs: Vec::new(), warnings: Vec::new() }
    }
}

/// The configurations that become launch configurations: read, and asking
/// to launch or to attach.
pub open spec fn accepted(entries: Seq<Result<VsCodeConfig, String>>) -> Seq<VsCodeConfig>
    decreases entries.len(),
{
    if entries.len() == 0 {
        Seq::empty()
    } else {
        let front = accepted(entries.drop_last());
        match entries.last() {
            Ok(c) => if request_kind(c.request@) is Some {
                front.push(c)
            } else {
                front
            },
            Err(_) => front,
        }
    }
}

pub open spec fn unreadable_warning(index: nat, error: Seq<char>) -> Seq<char> {
    "configuration "@ + text::decimal(index) + " could not be read: "@ + error
}

/// The warnings of the whole file, configuration by configuration.
pub open spec fn import_warnings(entries: Seq<Result<VsCodeConfig, String>>, ctx: ExpandContext) -> Seq<
    Seq<char>,
>
    decreases entries.len(),
{
    if entries.len() == 0 {
        Seq::empty()
    } else {
        let front = import_warnings(entries.drop_last(), ctx);
        match entries.last() {
            Err(e) => front.push(unreadable_warning((entries.len() - 1) as nat, e@)),
            Ok(c) => match request_kind(c.request@) {
                None => front.push(skipped_warning(c)),
                Some(_) => front + mapping(c, ctx).warnings,
            },
        }
    }
}

/// Imports the configurations of one file, each already read (or not) on
/// its own, so one unreadable entry costs only itself.
pub fn import_configs(entries: &Vec<Result<VsCodeConfig, String>>, ctx: &ExpandContext) -> (r:
    Imported)
    ensures
        r.configs@.len() == accepted(entries@).len(),
        forall|j: int|
            0 <= j < r.configs@.len() ==> #[trigger] imported_as(
                r.configs@[j],
                accepted(entries@)[j],
                *ctx,
            ),
        views(r.warnings@) == import_warnings(entries@, *ctx),
{
    let mut configs: Vec<LaunchConfig> = Vec::new();
    let mut warnings: Vec<String> = Vec::new();
    let mut i: usize = 0;
    assert(entries@.take(0) =~= Seq::<Result<VsCodeConfig, String>>::empty());
    assert(views(warnings@) =~= Seq::<Seq<char>>::empty());
    while i < entries.len()
        invariant
            i <= entries@.len(),
            configs@.len() == accepted(entries@.take(i as int)).len(),
            forall|j: int|
                0 <= j < configs@.len() ==> #[trigger] imported_as(
                    configs@[j],
                    accepted(entries@.take(i as int))[j],
                    *ctx,
                ),
            views(warnings@) == import_warnings(entries@.take(i as int), *ctx),
        decreases entries.len() - i,
    {
        let ghost prefix = entries@.take(i + 1);
        assert(prefix.drop_last() =~= entries@.take(i as int));
        assert(prefix.last() == entries@[i as int]);
        let ghost before = accepted(entries@.take(i as int));
        match &entries[i] {
            Err(error) => {
                let mut w = text::owned("configuration ");
                text::push_decimal(&mut w, i as u64);
                text::push_str(&mut w, " could not be read: ");
                text::push_str(&mut w, error.as_str());
                let ghost wv = views(warnings@);
                warnings.push(w);
                assert(views(warnings@) =~= wv.push(unreadable_warning(i as nat, error@)));
            },
            Ok(config) => {
                let ghost wv = views(warnings@);
                let ghost cv = configs@;
                match map(config, ctx, &mut warnings) {
                    Some(lc) => {
                        configs.push(lc);
                        assert(accepted(prefix) == before.push(*config));
                        assert forall|j: int| 0 <= j < configs@.len() implies #[trigger] imported_as(
                            configs@[j],
                            accepted(prefix)[j],
                            *ctx,
                        ) by {
                            if j < configs@.len() - 1 {
                                assert(configs@[j] == cv[j]);
                            }
                        }
                    },
                    None => {},
                }
            },
        }
        i = i + 1;
    }
    assert(entries@.take(entries@.len() as int) =~= entries@);
    Imported { configs, warnings }
}

impl ExpandContext {
    /// The context for a project root on this machine, with the given
    /// environment; the home directory is the platform's, when it has one.
    pub fn for_root(root: &str, env: Vec<(String, String)>) -> (r: ExpandContext)
        ensures
            r.root@ == root@,
            r.env@ == env@,
    {
        ExpandContext { root: text::owned(root), home: crate::dirs_env::home_dir(), env }
    }
}

// ---------------------------------------------------------------------------
// What holds of every configuration.
// ---------------------------------------------------------------------------

/// `v` is `u` with entries added after it, each one different from every
/// other entry of `v`.
pub open spec fn appended_fresh(u: Seq<Seq<char>>, v: Seq<Seq<char>>) -> bool {
    &&& v.len() >= u.len()
    &&& v.take(u.len() as int) == u
    &&& forall|i: int, j: int|
        u.len() <= i < v.len() && 0 <= j < v.len() && i != j ==> #[trigger] v[i] != #[trigger] v[j]
}

proof fn lemma_fresh_trans(a: Seq<Seq<char>>, b: Seq<Seq<char>>, c: Seq<Seq<char>>)
    requires
        appended_fresh(a, b),
        appended_fresh(b, c),
    ensures
        appended_fresh(a, c),
{
    lemma_prefix_trans(a, b, c);
    assert forall|i: int, j: int| a.len() <= i < c.len() && 0 <= j < c.len() && i != j implies #[trigger] c[i]
        != #[trigger] c[j] by {
        if i >= b.len() {
            assert(c[i] != c[j]);
        } else if j >= b.len() {
            assert(c[j] != c[i]);
        } else {
            assert(c[i] == c.take(b.len() as int)[i]);
            assert(c[j] == c.take(b.len() as int)[j]);
            assert(b[i] != b[j]);
        }
    }
}

proof fn lemma_record(u: Seq<Seq<char>>, t: Seq<char>)
    ensures
        record(u, t).len() >= u.len(),
        record(u, t).take(u.len() as int) == u,
        u.no_duplicates() ==> record(u, t).no_duplicates(),
        appended_fresh(u, record(u, t)),
{
    assert(u.take(u.len() as int) =~= u);
    if !u.contains(t) {
        let v = u.push(t);
        assert forall|i: int, j: int| u.len() <= i < v.len() && 0 <= j < v.len() && i != j implies #[trigger] v[i]
            != #[trigger] v[j] by {
            assert(v[j] == u[j]);
        }
        assert(u.push(t).take(u.len() as int) =~= u);
        if u.no_duplicates() {
            assert forall|i: int, j: int|
                0 <= i < u.push(t).len() && 0 <= j < u.push(t).len() && i != j implies u.push(t)[i]
                != u.push(t)[j] by {
                if i == u.len() as int {
                    assert(u[j] == u.push(t)[j]);
                } else if j == u.len() as int {
                    assert(u[i] == u.push(t)[i]);
                }
            }
        }
    } else {
        assert(u.take(u.len() as int) =~= u);
    }
}

proof fn lemma_prefix_trans(a: Seq<Seq<char>>, b: Seq<Seq<char>>, c: Seq<Seq<char>>)
    requires
        b.len() >= a.len(),
        b.take(a.len() as int) == a,
        c.len() >= b.len(),
        c.take(b.len() as int) == b,
    ensures
        c.take(a.len() as int) == a,
{
    assert(c.take(a.len() as int) =~= b.take(a.len() as int)) by {
        assert forall|k: int| 0 <= k < a.len() implies c.take(a.len() as int)[k] == b.take(
            a.len() as int,
        )[k] by {
            assert(c[k] == c.take(b.len() as int)[k]);
        }
    }
}

proof fn lemma_expand_from_record(s: Seq<char>, pos: int, ctx: ExpandContext, u: Seq<Seq<char>>)
    ensures
        expand_from(s, pos, ctx, u).1.len() >= u.len(),
        expand_from(s, pos, ctx, u).1.take(u.len() as int) == u,
        u.no_duplicates() ==> expand_from(s, pos, ctx, u).1.no_duplicates(),
        appended_fresh(u, expand_from(s, pos, ctx, u).1),
    decreases s.len() - pos,
{
    assert(u.take(u.len() as int) =~= u);
    if 0 <= pos <= s.len() {
        if let Some(start) = find_pat(s, seq!['$', '{'], pos) {
            match find_pat(s, seq!['}'], start + 2) {
                None => {
                    lemma_record(u, s.subrange(start, s.len() as int));
                },
                Some(end) => {
                    let name = s.subrange(start + 2, end);
                    let token = seq!['$', '{'] + name + seq!['}'];
                    lemma_record(u, token);
                    let u2 = match resolve(name, ctx) {
                        Some(_) => u,
                        None => record(u, token),
                    };
                    if !(end + 1 <= pos || end >= s.len()) {
                        lemma_expand_from_record(s, end + 1, ctx, u2);
                        lemma_prefix_trans(u, u2, expand_from(s, end + 1, ctx, u2).1);
                        assert(appended_fresh(u, u2)) by {
                            assert forall|i: int, j: int| u.len() <= i < u.len() && 0 <= j < u.len() && i != j implies #[trigger] u[i]
                                != #[trigger] u[j] by {}
                        }
                        lemma_fresh_trans(u, u2, expand_from(s, end + 1, ctx, u2).1);
                    } else {
                        assert(appended_fresh(u, u2));
                    }
                },
            }
        }
    }
}

/// What expansion records is only ever added to, and each variable nothing
/// could expand is recorded once, however often it is used: what it adds is
/// never already in the record, and never added twice.
pub proof fn law_unresolved_recorded_once(s: Seq<char>, ctx: ExpandContext, u: Seq<Seq<char>>)
    ensures
        expansion(s, ctx, u).1.len() >= u.len(),
        expansion(s, ctx, u).1.take(u.len() as int) == u,
        appended_fresh(u, expansion(s, ctx, u).1),
        u.no_duplicates() ==> expansion(s, ctx, u).1.no_duplicates(),
{
    lemma_expand_from_record(s, 0, ctx, u);
}

/// Text with no `${` in it comes out exactly as it went in, and records
/// nothing.
pub proof fn law_plain_text_is_not_expanded(s: Seq<char>, ctx: ExpandContext, u: Seq<Seq<char>>)
    requires
        !text::contains_seq(s, seq!['$', '{']),
    ensures
        expansion(s, ctx, u) == (s, u),
{
    lemma_find_pat(s, seq!['$', '{'], 0);
    if let Some(j) = find_pat(s, seq!['$', '{'], 0) {
        assert(text::occurs_at(s, seq!['$', '{'], j));
    }
    assert(s.subrange(0, s.len() as int) =~= s);
}

/// Nothing is guessed: a configuration using a variable nothing could
/// expand is listed, and is never runnable.
pub proof fn law_unexpanded_variable_is_not_runnable(
    lc: LaunchConfig,
    c: VsCodeConfig,
    ctx: ExpandContext,
)
    requires
        imported_as(lc, c, ctx),
        mapping(c, ctx).unresolved.len() > 0,
    ensures
        crate::launch::runnable(lc) is Err,
{
    assert(views(lc.unresolved@).len() == lc.unresolved@.len());
}

} // verus!
