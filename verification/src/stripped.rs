//! What stripping comments and trailing commas leaves behind: no comment
//! opens in it and every string in it closes, so stripping it again changes
//! nothing, unless it still holds a comma before a closing bracket. That
//! happens where the input had two commas in a row before one (`[1,,]`):
//! only the comma next to the bracket is taken out, and the one before it
//! then trails in its turn.
use vstd::prelude::*;

use crate::launch_json::{flushed, strip, strip_from, Scan};
use crate::text;

verus! {

/// The scanner's state inside a string after reading `c`.
pub open spec fn in_string(escaped: bool, c: char) -> Scan {
    if escaped {
        Scan::Str { escaped: false }
    } else if c == '\\' {
        Scan::Str { escaped: true }
    } else if c == '"' {
        Scan::Code
    } else {
        Scan::Str { escaped: false }
    }
}

/// Reading `t` from `k` in code or in a string (`after_slash`: the last
/// character read was a `/` in code): no comment opens, and the text ends
/// outside any string.
pub open spec fn quiet_from(t: Seq<char>, k: int, after_slash: bool, mode: Scan) -> bool
    decreases t.len() - k,
{
    if k < 0 || k >= t.len() {
        mode == Scan::Code
    } else {
        let c = t[k];
        match mode {
            Scan::Str { escaped } => quiet_from(t, k + 1, false, in_string(escaped, c)),
            Scan::Code => if after_slash && (c == '/' || c == '*') {
                false
            } else if c == '"' {
                quiet_from(t, k + 1, false, Scan::Str { escaped: false })
            } else {
                quiet_from(t, k + 1, c == '/', Scan::Code)
            },
            _ => false,
        }
    }
}

/// Reading `t` from `k` (`pending`: a comma has been read in code with
/// only whitespace since): no comma stands before a closing bracket with
/// only whitespace between, outside strings.
pub open spec fn no_trailing_comma_from(t: Seq<char>, k: int, pending: bool, mode: Scan) -> bool
    decreases t.len() - k,
{
    if k < 0 || k >= t.len() {
        true
    } else {
        let c = t[k];
        match mode {
            Scan::Str { escaped } => no_trailing_comma_from(t, k + 1, false, in_string(escaped, c)),
            Scan::Code => if text::is_ws(c) {
                no_trailing_comma_from(t, k + 1, pending, Scan::Code)
            } else if c == ',' {
                no_trailing_comma_from(t, k + 1, true, Scan::Code)
            } else if c == '}' || c == ']' {
                !pending && no_trailing_comma_from(t, k + 1, false, Scan::Code)
            } else if c == '"' {
                no_trailing_comma_from(t, k + 1, false, Scan::Str { escaped: false })
            } else {
                no_trailing_comma_from(t, k + 1, false, Scan::Code)
            },
            _ => true,
        }
    }
}

/// Text in which no comma trails before a closing bracket.
pub open spec fn no_trailing_comma(t: Seq<char>) -> bool {
    no_trailing_comma_from(t, 0, false, Scan::Code)
}

/// Text with no comment and no trailing comma passes through the scanner
/// unchanged.
proof fn lemma_clean_passes(
    t: Seq<char>,
    k: int,
    acc: Seq<char>,
    pending: bool,
    gap: Seq<char>,
    after_slash: bool,
    mode: Scan,
)
    requires
        0 <= k <= t.len(),
        mode is Code || mode is Str,
        mode is Str ==> !pending && gap.len() == 0,
        quiet_from(t, k, after_slash, mode),
        no_trailing_comma_from(t, k, pending, mode),
    ensures
        strip_from(t, k, acc, pending, gap, mode) == Ok::<Seq<char>, Seq<char>>(
            flushed(acc, pending, gap) + t.skip(k),
        ),
    decreases t.len() - k,
{
    if k >= t.len() {
        assert(t.skip(k) =~= Seq::<char>::empty());
        assert(flushed(acc, pending, gap) + t.skip(k) =~= flushed(acc, pending, gap));
    } else {
        let c = t[k];
        assert(t.skip(k) =~= seq![c] + t.skip(k + 1));
        match mode {
            Scan::Str { escaped } => {
                assert(flushed(acc, pending, gap) =~= acc);
                lemma_clean_passes(t, k + 1, acc.push(c), false, gap, false, in_string(escaped, c));
                assert(flushed(acc.push(c), false, gap) =~= acc.push(c));
                assert(acc.push(c) + t.skip(k + 1) =~= acc + t.skip(k));
            },
            _ => {
                let f = flushed(acc, pending, gap);
                if c == '/' && k + 1 < t.len() {
                    assert(quiet_from(t, k + 1, true, Scan::Code));
                    assert(t[k + 1] != '/' && t[k + 1] != '*');
                }
                if text::is_ws(c) {
                    if c == '"' || c == '/' {
                        assert(!text::is_ws(c));
                    }
                    lemma_clean_passes(t, k + 1, acc, pending, gap.push(c), false, Scan::Code);
                    assert(flushed(acc, pending, gap.push(c)) + t.skip(k + 1) =~= f + t.skip(k));
                } else if c == ',' {
                    lemma_clean_passes(t, k + 1, f, true, Seq::empty(), false, Scan::Code);
                    assert(flushed(f, true, Seq::empty()) + t.skip(k + 1) =~= f + t.skip(k));
                } else if c == '}' || c == ']' {
                    lemma_clean_passes(t, k + 1, (acc + gap).push(c), false, Seq::empty(), false, Scan::Code);
                    assert(f =~= acc + gap);
                    assert(flushed((acc + gap).push(c), false, Seq::empty()) + t.skip(k + 1) =~= f
                        + t.skip(k));
                } else if c == '"' {
                    lemma_clean_passes(
                        t,
                        k + 1,
                        f.push('"'),
                        false,
                        Seq::empty(),
                        false,
                        Scan::Str { escaped: false },
                    );
                    assert(flushed(f.push('"'), false, Seq::empty()) + t.skip(k + 1) =~= f + t.skip(k));
                } else {
                    lemma_clean_passes(t, k + 1, f.push(c), false, Seq::empty(), c == '/', Scan::Code);
                    assert(flushed(f.push(c), false, Seq::empty()) + t.skip(k + 1) =~= f + t.skip(k));
                }
            },
        }
    }
}

/// Reading whitespace and commas in code opens nothing.
proof fn lemma_quiet_run(t: Seq<char>, p: int, n: int, after_slash: bool)
    requires
        0 <= p,
        0 <= n,
        p + n <= t.len(),
        forall|j: int| p <= j < p + n ==> text::is_ws(#[trigger] t[j]) || t[j] == ',',
    ensures
        quiet_from(t, p, after_slash, Scan::Code) == quiet_from(
            t,
            p + n,
            if n == 0 {
                after_slash
            } else {
                false
            },
            Scan::Code,
        ),
    decreases n,
{
    if n > 0 {
        let c = t[p];
        assert(text::is_ws(c) || c == ',');
        assert(c != '/' && c != '*' && c != '"');
        lemma_quiet_run(t, p + 1, n - 1, false);
    }
}

/// Whether the last character written was a `/` in code.
pub open spec fn slash_last(out: Seq<char>, mode: Scan) -> bool {
    !(mode is Str) && out.len() > 0 && out.last() == '/'
}

/// Where the output is read from: inside a string, or in code.
pub open spec fn read_mode(mode: Scan) -> Scan {
    if mode is Str {
        mode
    } else {
        Scan::Code
    }
}

/// What the scanner writes is quiet from where it has got to: the text it
/// goes on to write opens no comment and closes every string.
proof fn lemma_output_quiet(
    s: Seq<char>,
    i: int,
    out: Seq<char>,
    pending: bool,
    gap: Seq<char>,
    mode: Scan,
    o: Seq<char>,
)
    requires
        0 <= i <= s.len(),
        strip_from(s, i, out, pending, gap, mode) == Ok::<Seq<char>, Seq<char>>(o),
        forall|j: int| 0 <= j < gap.len() ==> text::is_ws(#[trigger] gap[j]),
        (mode is LineComment || mode is BlockComment) ==> gap.len() > 0,
        mode is Str ==> !pending && gap.len() == 0,
        slash_last(out, mode) && !pending && gap.len() == 0 && mode == Scan::Code && i < s.len()
            ==> s[i] != '/' && s[i] != '*',
    ensures
        o.len() >= out.len(),
        o.take(out.len() as int) == out,
        quiet_from(o, out.len() as int, slash_last(out, mode), read_mode(mode)),
    decreases s.len() - i,
{
    let f = flushed(out, pending, gap);
    let e = f.skip(out.len() as int);
    assert(f.take(out.len() as int) =~= out);
    assert forall|j: int| 0 <= j < e.len() implies text::is_ws(#[trigger] e[j]) || e[j] == ',' by {
        if pending {
            if j > 0 {
                assert(e[j] == gap[j - 1]);
            }
        } else {
            assert(e[j] == gap[j]);
        }
    }
    if i >= s.len() {
        match mode {
            Scan::Code => {},
            Scan::LineComment => {},
            _ => {
                assert(false);
            },
        }
        assert(o == f);
        assert forall|j: int| out.len() <= j < o.len() implies text::is_ws(#[trigger] o[j]) || o[j]
            == ',' by {
            assert(o[j] == e[j - out.len()]);
        }
        lemma_quiet_run(o, out.len() as int, e.len() as int, slash_last(out, mode));
    } else {
        let c = s[i];
        assert(text::is_ws(' ') && text::is_ws('\n') && text::is_ws('\r'));
        match mode {
            Scan::LineComment => {
                let g2 = gap.push(crate::launch_json::blank(c));
                lemma_output_quiet(
                    s,
                    i + 1,
                    out,
                    pending,
                    g2,
                    if c == '\n' {
                        Scan::Code
                    } else {
                        Scan::LineComment
                    },
                    o,
                );
            },
            Scan::BlockComment { after_star } => {
                let g2 = gap.push(crate::launch_json::blank(c));
                lemma_output_quiet(
                    s,
                    i + 1,
                    out,
                    pending,
                    g2,
                    if after_star && c == '/' {
                        Scan::Code
                    } else {
                        Scan::BlockComment { after_star: c == '*' }
                    },
                    o,
                );
            },
            Scan::Str { escaped } => {
                let m = in_string(escaped, c);
                lemma_output_quiet(s, i + 1, out.push(c), pending, gap, m, o);
                assert(o.take(out.len() as int + 1) == out.push(c));
                assert(o[out.len() as int] == o.take(out.len() as int + 1)[out.len() as int]);
                assert(o.take(out.len() as int) =~= o.take(out.len() as int + 1).take(out.len() as int));
                assert(out.push(c).take(out.len() as int) =~= out);
            },
            Scan::Code => {
                if c == '/' && i + 1 < s.len() && s[i + 1] == '/' {
                    lemma_output_quiet(s, i + 2, out, pending, gap.push(' ').push(' '), Scan::LineComment, o);
                } else if c == '/' && i + 1 < s.len() && s[i + 1] == '*' {
                    lemma_output_quiet(
                        s,
                        i + 2,
                        out,
                        pending,
                        gap.push(' ').push(' '),
                        Scan::BlockComment { after_star: false },
                        o,
                    );
                } else if text::is_ws(c) {
                    lemma_output_quiet(s, i + 1, out, pending, gap.push(c), Scan::Code, o);
                } else {
                    let (nb, ob, pb, mb) = if c == ',' {
                        (f, f, true, Scan::Code)
                    } else if c == '}' || c == ']' {
                        ((out + gap).push(c), out + gap, false, Scan::Code)
                    } else if c == '"' {
                        (f.push('"'), f, false, Scan::Str { escaped: false })
                    } else {
                        (f.push(c), f, false, Scan::Code)
                    };
                    lemma_output_quiet(s, i + 1, nb, pb, Seq::empty(), mb, o);
                    // `ob` is what is written before the character itself.
                    let n = ob.len() - out.len();
                    assert(ob.take(out.len() as int) =~= out);
                    assert(nb.take(ob.len() as int) =~= ob);
                    assert(o.take(ob.len() as int) =~= nb.take(ob.len() as int)) by {
                        assert(o.take(ob.len() as int) =~= o.take(nb.len() as int).take(ob.len() as int));
                    }
                    assert(o.take(out.len() as int) =~= ob.take(out.len() as int)) by {
                        assert(o.take(out.len() as int) =~= o.take(ob.len() as int).take(out.len() as int));
                    }
                    assert forall|j: int| out.len() <= j < out.len() + n implies text::is_ws(
                        #[trigger] o[j],
                    ) || o[j] == ',' by {
                        assert(o[j] == o.take(ob.len() as int)[j]);
                        assert(ob[j] == ob.skip(out.len() as int)[j - out.len()]);
                        if c == '}' || c == ']' {
                            assert(ob[j] == gap[j - out.len()]);
                        } else {
                            assert(ob.skip(out.len() as int) == e);
                        }
                    }
                    lemma_quiet_run(o, out.len() as int, n, slash_last(out, mode));
                    if c != ',' {
                        assert(o[ob.len() as int] == c) by {
                            assert(o[ob.len() as int] == o.take(nb.len() as int)[ob.len() as int]);
                        }
                        if n == 0 && slash_last(out, mode) {
                            if c == '}' || c == ']' {
                            } else {
                                assert(!pending && gap.len() == 0) by {
                                    if pending {
                                        assert(f.len() > out.len());
                                    }
                                    if gap.len() > 0 {
                                        assert(f.len() > out.len());
                                    }
                                }
                            }
                        }
                    }
                }
            },
        }
    }
}

/// Stripping stripped text changes nothing, unless the stripped text still
/// holds a comma before a closing bracket (the input had two commas in a
/// row before one, as in `[1,,]`: only the comma next to the bracket is
/// taken out).
pub proof fn law_stripping_twice_is_stripping_once(source: Seq<char>)
    requires
        strip(source) matches Ok(o) ==> no_trailing_comma(o),
    ensures
        strip(source) matches Ok(o) ==> strip(o) == Ok::<Seq<char>, Seq<char>>(o),
{
    if let Ok(o) = strip(source) {
        lemma_output_quiet(source, 0, Seq::empty(), false, Seq::empty(), Scan::Code, o);
        lemma_clean_passes(o, 0, Seq::empty(), false, Seq::empty(), false, Scan::Code);
        assert(flushed(Seq::<char>::empty(), false, Seq::<char>::empty()) + o.skip(0) =~= o);
    }
}

} // verus!
