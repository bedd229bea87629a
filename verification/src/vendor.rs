//! Reading what the vendored-header check is told: version macros in a
//! header, what `scp` reported, how much of a diff to show, and the
//! `key: value` lines of a `SOURCE` file.
//!
//! Text is read the way `str::lines` splits it: at each `\n`, with a
//! `\r` just before it dropped, and no empty line after a final `\n`.

use vstd::prelude::*;

use crate::text::{decimal, push_decimal};

verus! {

broadcast use vstd::string::group_string_axioms;

/// The board the update and smoke-test scripts default to.
pub const DEFAULT_HOST: &'static str = "root@bela.local";

/// How many lines of a differing file to show before pointing at the
/// update script instead.
pub const MAX_DIFF_LINES: usize = 60;

/// Whether `c` is white space, as `char::is_whitespace` has it: the
/// Unicode `White_Space` property.
pub open spec fn spec_is_whitespace(c: char) -> bool {
    ||| c == '\t'
    ||| c == '\n'
    ||| c == '\x0B'
    ||| c == '\x0C'
    ||| c == '\r'
    ||| c == ' '
    ||| c == '\u{85}'
    ||| c == '\u{A0}'
    ||| c == '\u{1680}'
    ||| ('\u{2000}' <= c && c <= '\u{200A}')
    ||| c == '\u{2028}'
    ||| c == '\u{2029}'
    ||| c == '\u{202F}'
    ||| c == '\u{205F}'
    ||| c == '\u{3000}'
}

/// Whether `c` is white space.
pub fn is_whitespace(c: char) -> (ws: bool)
    ensures
        ws == spec_is_whitespace(c),
{
    c == '\t' || c == '\n' || c == '\x0B' || c == '\x0C' || c == '\r' || c == ' ' || c == '\u{85}'
        || c == '\u{A0}' || c == '\u{1680}' || ('\u{2000}' <= c && c <= '\u{200A}') || c
        == '\u{2028}' || c == '\u{2029}' || c == '\u{202F}' || c == '\u{205F}' || c == '\u{3000}'
}

/// How many white-space characters `s` starts with.
pub open spec fn spec_leading_ws(s: Seq<char>) -> nat
    decreases s.len(),
{
    if s.len() > 0 && spec_is_whitespace(s[0]) {
        1 + spec_leading_ws(s.drop_first())
    } else {
        0
    }
}

/// How many white-space characters `s` ends with.
pub open spec fn spec_trailing_ws(s: Seq<char>) -> nat
    decreases s.len(),
{
    if s.len() > 0 && spec_is_whitespace(s.last()) {
        1 + spec_trailing_ws(s.drop_last())
    } else {
        0
    }
}

/// `s` without the white space at either end.
pub open spec fn spec_trim(s: Seq<char>) -> Seq<char> {
    let rest = s.skip(spec_leading_ws(s) as int);
    rest.take(rest.len() - spec_trailing_ws(rest))
}

/// Where the first line of `s` ends: at its first `\n`, or at its end.
pub open spec fn spec_line_end(s: Seq<char>) -> nat
    decreases s.len(),
{
    if s.len() == 0 {
        0
    } else if s[0] == '\n' {
        0
    } else {
        1 + spec_line_end(s.drop_first())
    }
}

/// The first line of `s`, given that it ends at `end`: without the `\r`
/// of a `\r\n`.
pub open spec fn spec_line_text(s: Seq<char>, end: int) -> Seq<char> {
    if end < s.len() && end > 0 && s[end - 1] == '\r' {
        s.take(end - 1)
    } else {
        s.take(end)
    }
}

/// The lines of `s`, as `str::lines` gives them.
pub open spec fn spec_lines(s: Seq<char>) -> Seq<Seq<char>>
    decreases s.len(),
{
    if s.len() == 0 {
        Seq::empty()
    } else {
        let end = spec_line_end(s);
        if end >= s.len() {
            seq![spec_line_text(s, end as int)]
        } else {
            seq![spec_line_text(s, end as int)] + spec_lines(s.skip(end + 1int))
        }
    }
}

/// `lines` joined with `sep` between each two.
pub open spec fn spec_join(lines: Seq<Seq<char>>, sep: Seq<char>) -> Seq<char>
    decreases lines.len(),
{
    if lines.len() == 0 {
        Seq::empty()
    } else if lines.len() == 1 {
        lines[0]
    } else {
        spec_join(lines.drop_last(), sep) + sep + lines.last()
    }
}

proof fn lemma_leading_ws(s: Seq<char>, k: int)
    requires
        0 <= k <= s.len(),
        forall|j: int| 0 <= j < k ==> spec_is_whitespace(#[trigger] s[j]),
        k == s.len() || !spec_is_whitespace(s[k]),
    ensures
        spec_leading_ws(s) == k,
    decreases k,
{
    if k > 0 {
        let d = s.drop_first();
        assert forall|j: int| 0 <= j < k - 1 implies spec_is_whitespace(#[trigger] d[j]) by {
            assert(d[j] == s[j + 1]);
        }
        if k < s.len() {
            assert(d[k - 1] == s[k]);
        }
        lemma_leading_ws(d, k - 1);
    }
}

proof fn lemma_trailing_ws(s: Seq<char>, k: int)
    requires
        0 <= k <= s.len(),
        forall|j: int| s.len() - k <= j < s.len() ==> spec_is_whitespace(#[trigger] s[j]),
        k == s.len() || !spec_is_whitespace(s[s.len() - k - 1]),
    ensures
        spec_trailing_ws(s) == k,
    decreases k,
{
    if k > 0 {
        let d = s.drop_last();
        assert forall|j: int| d.len() - (k - 1) <= j < d.len() implies spec_is_whitespace(
            #[trigger] d[j],
        ) by {
            assert(d[j] == s[j]);
        }
        if k < s.len() {
            assert(d[d.len() - (k - 1) - 1] == s[s.len() - k - 1]);
        }
        lemma_trailing_ws(d, k - 1);
    }
}

proof fn lemma_line_end(s: Seq<char>, k: int)
    requires
        0 <= k <= s.len(),
        forall|j: int| 0 <= j < k ==> #[trigger] s[j] != '\n',
        k == s.len() || s[k] == '\n',
    ensures
        spec_line_end(s) == k,
    decreases k,
{
    if k > 0 {
        let d = s.drop_first();
        assert forall|j: int| 0 <= j < k - 1 implies #[trigger] d[j] != '\n' by {
            assert(d[j] == s[j + 1]);
        }
        if k < s.len() {
            assert(d[k - 1] == s[k]);
        }
        lemma_line_end(d, k - 1);
    }
}

/// The characters of `s`.
pub fn chars_of(s: &str) -> (chars: Vec<char>)
    ensures
        chars@ == s@,
{
    let mut chars: Vec<char> = Vec::new();
    for c in it: s.chars()
        invariant
            chars@ == it.seq().take(it.index()),
    {
        chars.push(c);
        assert(chars@ =~= it.seq().take(it.index() + 1));
    }
    assert(chars@ =~= s@);
    chars
}

/// Where white space ends at the front of `chars[from..to]` and begins
/// at its back: the bounds of the trimmed text.
pub fn trimmed_bounds(chars: &Vec<char>, from: usize, to: usize) -> (bounds: (usize, usize))
    requires
        from <= to <= chars@.len(),
    ensures
        from <= bounds.0 <= bounds.1 <= to,
        chars@.subrange(bounds.0 as int, bounds.1 as int) == spec_trim(
            chars@.subrange(from as int, to as int),
        ),
{
    let ghost s = chars@.subrange(from as int, to as int);
    let mut a = from;
    while a < to && is_whitespace(chars[a])
        invariant
            from <= a <= to <= chars@.len(),
            s == chars@.subrange(from as int, to as int),
            forall|j: int| 0 <= j < a - from ==> spec_is_whitespace(#[trigger] s[j]),
        decreases to - a,
    {
        assert(s[a - from] == chars@[a as int]);
        a = a + 1;
    }
    proof {
        if a < to {
            assert(s[a - from] == chars@[a as int]);
        }
        lemma_leading_ws(s, a - from);
    }
    let ghost rest = s.skip(a - from);
    assert(rest =~= chars@.subrange(a as int, to as int));
    let mut b = to;
    while b > a && is_whitespace(chars[b - 1])
        invariant
            from <= a <= b <= to <= chars@.len(),
            rest == chars@.subrange(a as int, to as int),
            forall|j: int| rest.len() - (to - b) <= j < rest.len() ==> spec_is_whitespace(
                #[trigger] rest[j],
            ),
        decreases b - a,
    {
        assert(rest[b - 1 - a] == chars@[b - 1]);
        b = b - 1;
    }
    proof {
        if b > a {
            assert(rest[rest.len() - (to - b) - 1] == chars@[b - 1]);
        }
        lemma_trailing_ws(rest, to - b);
        assert(rest.take(rest.len() - spec_trailing_ws(rest)) =~= chars@.subrange(
            a as int,
            b as int,
        ));
    }
    (a, b)
}

/// The lines of `chars`, as the character ranges they span.
pub fn line_bounds(chars: &Vec<char>) -> (bounds: Vec<(usize, usize)>)
    ensures
        bounds@.len() == spec_lines(chars@).len(),
        forall|k: int| 0 <= k < bounds@.len() ==> #[trigger] bounds@[k].0 <= bounds@[k].1 <= chars@.len(),
        forall|k: int|
            0 <= k < bounds@.len() ==> chars@.subrange(bounds@[k].0 as int, bounds@[k].1 as int)
                == #[trigger] spec_lines(chars@)[k],
{
    let n = chars.len();
    let mut bounds: Vec<(usize, usize)> = Vec::new();
    let ghost mut done: Seq<Seq<char>> = Seq::empty();
    let mut pos: usize = 0;
    assert(chars@.skip(0) =~= chars@);
    assert(done + spec_lines(chars@.skip(0)) =~= spec_lines(chars@));
    while pos < n
        invariant
            n == chars@.len(),
            pos <= n,
            done + spec_lines(chars@.skip(pos as int)) == spec_lines(chars@),
            bounds@.len() == done.len(),
            forall|k: int| 0 <= k < bounds@.len() ==> #[trigger] bounds@[k].0 <= bounds@[k].1 <= n,
            forall|k: int|
                0 <= k < bounds@.len() ==> chars@.subrange(bounds@[k].0 as int, bounds@[k].1 as int)
                    == #[trigger] done[k],
        decreases n - pos,
    {
        let ghost rest = chars@.skip(pos as int);
        let mut end = pos;
        while end < n && chars[end] != '\n'
            invariant
                pos <= end <= n,
                n == chars@.len(),
                rest == chars@.skip(pos as int),
                forall|j: int| 0 <= j < end - pos ==> #[trigger] rest[j] != '\n',
            decreases n - end,
        {
            assert(rest[end - pos] == chars@[end as int]);
            end = end + 1;
        }
        proof {
            if end < n {
                assert(rest[end - pos] == chars@[end as int]);
            }
            lemma_line_end(rest, end - pos);
        }
        let stop = if end < n && end > pos && chars[end - 1] == '\r' { end - 1 } else { end };
        let ghost line = spec_line_text(rest, end - pos);
        proof {
            if end < n && end > pos {
                assert(rest[end - pos - 1] == chars@[end - 1]);
            }
            assert(line =~= chars@.subrange(pos as int, stop as int));
        }
        bounds.push((pos, stop));
        let ghost before = done;
        proof {
            done = done.push(line);
        }
        assert forall|k: int| 0 <= k < bounds@.len() implies chars@.subrange(
            bounds@[k].0 as int,
            bounds@[k].1 as int,
        ) == #[trigger] done[k] by {
            if k < before.len() {
                assert(done[k] == before[k]);
            }
        }
        if end >= n {
            proof {
                assert(rest.len() > 0);
                assert(spec_line_end(rest) == end - pos);
                assert(spec_lines(rest) == seq![line]);
                assert(chars@.skip(n as int) =~= Seq::<char>::empty());
                assert(spec_lines(chars@.skip(n as int)) =~= Seq::<Seq<char>>::empty());
                assert(before + spec_lines(rest) =~= done + spec_lines(chars@.skip(n as int)));
            }
            pos = n;
        } else {
            proof {
                assert(rest.len() > 0);
                assert(spec_line_end(rest) == end - pos);
                assert(rest.skip(end - pos + 1) =~= chars@.skip(end + 1));
                assert(spec_lines(rest) == seq![line] + spec_lines(chars@.skip(end + 1)));
                assert(before + spec_lines(rest) =~= done + spec_lines(chars@.skip(end + 1)));
            }
            pos = end + 1;
        }
    }
    proof {
        assert(chars@.skip(n as int) =~= Seq::<char>::empty());
        assert(spec_lines(chars@.skip(n as int)) =~= Seq::<Seq<char>>::empty());
        assert(done + Seq::<Seq<char>>::empty() =~= done);
        assert(done =~= spec_lines(chars@));
    }
    bounds
}

/// Whether `line` starts with `prefix`.
pub open spec fn spec_starts_with(line: Seq<char>, prefix: Seq<char>) -> bool {
    prefix.len() <= line.len() && line.take(prefix.len() as int) == prefix
}

/// What follows `prefix` on the first of `lines`, from the `k`th on,
/// that starts with it.
pub open spec fn spec_find_from(lines: Seq<Seq<char>>, prefix: Seq<char>, k: int) -> Option<Seq<char>>
    decreases lines.len() - k,
{
    if k < 0 || k >= lines.len() {
        None
    } else if spec_starts_with(lines[k], prefix) {
        Some(lines[k].skip(prefix.len() as int))
    } else {
        spec_find_from(lines, prefix, k + 1)
    }
}

/// What follows `prefix` on the first line of `text` that starts with
/// it, trimmed.
pub open spec fn spec_field(text: Seq<char>, prefix: Seq<char>) -> Option<Seq<char>> {
    match spec_find_from(spec_lines(text), prefix, 0) {
        Some(rest) => Some(spec_trim(rest)),
        None => None,
    }
}

/// Whether the characters of `chars[start..end]` start with `prefix`.
fn starts_with_at(chars: &Vec<char>, start: usize, end: usize, prefix: &Vec<char>) -> (found: bool)
    requires
        start <= end <= chars@.len(),
    ensures
        found == spec_starts_with(chars@.subrange(start as int, end as int), prefix@),
{
    let ghost line = chars@.subrange(start as int, end as int);
    if prefix.len() > end - start {
        return false;
    }
    let mut j: usize = 0;
    while j < prefix.len()
        invariant
            start <= end <= chars@.len(),
            prefix@.len() <= end - start,
            line == chars@.subrange(start as int, end as int),
            j <= prefix@.len(),
            forall|i: int| 0 <= i < j ==> line[i] == prefix@[i],
        decreases prefix@.len() - j,
    {
        if chars[start + j] != prefix[j] {
            assert(line.take(prefix@.len() as int)[j as int] != prefix@[j as int]);
            return false;
        }
        j = j + 1;
    }
    assert(line.take(prefix@.len() as int) =~= prefix@);
    true
}

/// Where the value of the first line of `chars` starting with `prefix`
/// lies once trimmed, given the lines' bounds.
pub fn find_field(chars: &Vec<char>, bounds: &Vec<(usize, usize)>, prefix: &Vec<char>) -> (field: Option<
    (usize, usize),
>)
    requires
        bounds@.len() == spec_lines(chars@).len(),
        forall|k: int| 0 <= k < bounds@.len() ==> #[trigger] bounds@[k].0 <= bounds@[k].1 <= chars@.len(),
        forall|k: int|
            0 <= k < bounds@.len() ==> chars@.subrange(bounds@[k].0 as int, bounds@[k].1 as int)
                == #[trigger] spec_lines(chars@)[k],
    ensures
        spec_field(chars@, prefix@) is None ==> field is None,
        spec_field(chars@, prefix@) matches Some(value) ==> field matches Some(f) && f.0 <= f.1
            <= chars@.len() && chars@.subrange(f.0 as int, f.1 as int) == value,
{
    let ghost lines = spec_lines(chars@);
    let mut k: usize = 0;
    while k < bounds.len()
        invariant
            lines == spec_lines(chars@),
            bounds@.len() == lines.len(),
            k <= bounds@.len(),
            forall|i: int| 0 <= i < bounds@.len() ==> #[trigger] bounds@[i].0 <= bounds@[i].1 <= chars@.len(),
            forall|i: int|
                0 <= i < bounds@.len() ==> chars@.subrange(bounds@[i].0 as int, bounds@[i].1 as int)
                    == #[trigger] lines[i],
            spec_find_from(lines, prefix@, 0) == spec_find_from(lines, prefix@, k as int),
        decreases bounds@.len() - k,
    {
        let (start, end) = bounds[k];
        assert(chars@.subrange(start as int, end as int) == lines[k as int]);
        if starts_with_at(chars, start, end, prefix) {
            let (a, b) = trimmed_bounds(chars, start + prefix.len(), end);
            proof {
                assert(lines[k as int].skip(prefix@.len() as int) =~= chars@.subrange(
                    start + prefix@.len(),
                    end as int,
                ));
            }
            return Some((a, b));
        }
        k = k + 1;
    }
    None
}

/// The word `update-vendor.sh` writes for a value the board would not
/// give.
pub open spec fn spec_unknown() -> Seq<char> {
    seq!['u', 'n', 'k', 'n', 'o', 'w', 'n']
}

/// The value of a `key: value` line in a `SOURCE` file: the first line
/// that starts with the key decides, and a value that is empty or
/// `unknown` is no value.
pub open spec fn spec_recorded_value(source: Seq<char>, key: Seq<char>) -> Option<Seq<char>> {
    match spec_field(source, key + seq![':', ' ']) {
        Some(value) => if value.len() > 0 && value != spec_unknown() {
            Some(value)
        } else {
            None
        },
        None => None,
    }
}

/// Whether `chars[a..b]` is `unknown`.
fn is_unknown(chars: &Vec<char>, a: usize, b: usize) -> (unknown: bool)
    requires
        a <= b <= chars@.len(),
    ensures
        unknown == (chars@.subrange(a as int, b as int) == spec_unknown()),
{
    let word: Vec<char> = vec!['u', 'n', 'k', 'n', 'o', 'w', 'n'];
    assert(word@ =~= spec_unknown());
    if b - a != 7 {
        assert(chars@.subrange(a as int, b as int).len() != spec_unknown().len());
        return false;
    }
    let found = starts_with_at(chars, a, b, &word);
    proof {
        assert(chars@.subrange(a as int, b as int).take(7) =~= chars@.subrange(a as int, b as int));
        if found {
            assert(chars@.subrange(a as int, b as int) =~= chars@.subrange(a as int, b as int).take(7));
        }
    }
    found
}

/// The value of a `key: value` line in a `SOURCE` file.
pub fn recorded_value(source: &str, key: &str) -> (value: Option<String>)
    ensures
        spec_recorded_value(source@, key@) is None ==> value is None,
        spec_recorded_value(source@, key@) matches Some(v) ==> value matches Some(s) && s@ == v,
{
    let chars = chars_of(source);
    let mut prefix = chars_of(key);
    prefix.push(':');
    prefix.push(' ');
    assert(prefix@ =~= key@ + seq![':', ' ']);
    let bounds = line_bounds(&chars);
    match find_field(&chars, &bounds, &prefix) {
        Some((a, b)) => {
            if a == b || is_unknown(&chars, a, b) {
                None
            } else {
                Some(source.substring_char(a, b).to_owned())
            }
        },
        None => None,
    }
}

/// The `BELA_*_VERSION` macros in the text of a header, as `1.18.0`:
/// all three have to be there, since two out of three is not a version.
pub open spec fn spec_version_in(text: Seq<char>) -> Option<Seq<char>> {
    match (
        spec_field(text, "#define BELA_MAJOR_VERSION "@),
        spec_field(text, "#define BELA_MINOR_VERSION "@),
        spec_field(text, "#define BELA_BUGFIX_VERSION "@),
    ) {
        (Some(major), Some(minor), Some(bugfix)) => Some(major + "."@ + minor + "."@ + bugfix),
        _ => None,
    }
}

/// The version the `BELA_*_VERSION` macros in the text of a header
/// state, as `1.18.0`.
pub fn version_in(text: &str) -> (version: Option<String>)
    ensures
        spec_version_in(text@) is None ==> version is None,
        spec_version_in(text@) matches Some(v) ==> version matches Some(s) && s@ == v,
{
    let chars = chars_of(text);
    let bounds = line_bounds(&chars);
    let major = find_field(&chars, &bounds, &chars_of("#define BELA_MAJOR_VERSION "));
    let minor = find_field(&chars, &bounds, &chars_of("#define BELA_MINOR_VERSION "));
    let bugfix = find_field(&chars, &bounds, &chars_of("#define BELA_BUGFIX_VERSION "));
    match (major, minor, bugfix) {
        (Some((a, b)), Some((c, d)), Some((e, f))) => {
            let mut out = String::new();
            out.append(text.substring_char(a, b));
            out.append(".");
            out.append(text.substring_char(c, d));
            out.append(".");
            out.append(text.substring_char(e, f));
            Some(out)
        },
        _ => None,
    }
}

/// The lines of `lines` that start with `prefix`, in order.
pub open spec fn spec_keep(lines: Seq<Seq<char>>, prefix: Seq<char>) -> Seq<Seq<char>>
    decreases lines.len(),
{
    if lines.len() == 0 {
        Seq::empty()
    } else if spec_starts_with(lines.last(), prefix) {
        spec_keep(lines.drop_last(), prefix).push(lines.last())
    } else {
        spec_keep(lines.drop_last(), prefix)
    }
}

/// What `scp` had to say: its own `scp:` lines, without the login banner
/// and locale warning a board greets every session with, or, where there
/// is no such line (a connection that failed, say), everything it said,
/// trimmed.
pub open spec fn spec_scp_error(stderr: Seq<char>) -> Seq<char> {
    let reported = spec_keep(spec_lines(stderr), "scp:"@);
    if reported.len() == 0 {
        spec_trim(stderr)
    } else {
        spec_join(reported, "\n"@)
    }
}

/// What `scp` had to say, from what it wrote to standard error.
pub fn scp_error(stderr: &str) -> (reported: String)
    ensures
        reported@ == spec_scp_error(stderr@),
{
    let chars = chars_of(stderr);
    let bounds = line_bounds(&chars);
    let prefix = chars_of("scp:");
    let ghost lines = spec_lines(chars@);
    let mut out = String::new();
    let mut kept = false;
    let mut k: usize = 0;
    while k < bounds.len()
        invariant
            lines == spec_lines(chars@),
            chars@ == stderr@,
            prefix@ == "scp:"@,
            bounds@.len() == lines.len(),
            k <= bounds@.len(),
            forall|i: int| 0 <= i < bounds@.len() ==> #[trigger] bounds@[i].0 <= bounds@[i].1 <= chars@.len(),
            forall|i: int|
                0 <= i < bounds@.len() ==> chars@.subrange(bounds@[i].0 as int, bounds@[i].1 as int)
                    == #[trigger] lines[i],
            kept == (spec_keep(lines.take(k as int), prefix@).len() > 0),
            out@ == spec_join(spec_keep(lines.take(k as int), prefix@), "\n"@),
        decreases bounds@.len() - k,
    {
        let (start, end) = bounds[k];
        let ghost before = spec_keep(lines.take(k as int), prefix@);
        assert(lines.take(k + 1).drop_last() =~= lines.take(k as int));
        assert(lines.take(k + 1).last() == lines[k as int]);
        if starts_with_at(&chars, start, end, &prefix) {
            if kept {
                out.append("\n");
            }
            out.append(stderr.substring_char(start, end));
            kept = true;
            proof {
                let after = before.push(lines[k as int]);
                assert(after.drop_last() =~= before);
                if before.len() == 0 {
                    assert(spec_join(after, "\n"@) == after[0]);
                }
            }
        }
        k = k + 1;
    }
    assert(lines.take(bounds@.len() as int) =~= lines);
    if !kept {
        let (a, b) = trimmed_bounds(&chars, 0, chars.len());
        assert(chars@.subrange(0, chars@.len() as int) =~= chars@);
        return stderr.substring_char(a, b).to_owned();
    }
    out
}

/// The note that ends a diff cut down to `MAX_DIFF_LINES` lines, for
/// `left_out` lines not shown.
pub open spec fn spec_abridged_note(left_out: nat) -> Seq<char> {
    "\n("@ + decimal(left_out) + " more diff line(s); update the pin and read the change as a git diff)"@
}

/// A diff cut down to `MAX_DIFF_LINES` lines, saying how much was left
/// out and where to read the rest; a diff that short is passed through
/// as it is, trailing newline included.
pub open spec fn spec_abridge(diff: Seq<char>) -> Seq<char> {
    let lines = spec_lines(diff);
    if lines.len() <= MAX_DIFF_LINES {
        diff
    } else {
        spec_join(lines.take(MAX_DIFF_LINES as int), "\n"@) + spec_abridged_note(
            (lines.len() - MAX_DIFF_LINES) as nat,
        )
    }
}

/// A diff cut down to `MAX_DIFF_LINES` lines.
pub fn abridge(diff: &str) -> (abridged: String)
    ensures
        abridged@ == spec_abridge(diff@),
{
    let chars = chars_of(diff);
    let bounds = line_bounds(&chars);
    let ghost lines = spec_lines(chars@);
    if bounds.len() <= MAX_DIFF_LINES {
        return diff.to_owned();
    }
    let mut out = String::new();
    let mut k: usize = 0;
    while k < MAX_DIFF_LINES
        invariant
            lines == spec_lines(chars@),
            chars@ == diff@,
            bounds@.len() == lines.len(),
            MAX_DIFF_LINES < bounds@.len(),
            k <= MAX_DIFF_LINES,
            forall|i: int| 0 <= i < bounds@.len() ==> #[trigger] bounds@[i].0 <= bounds@[i].1 <= chars@.len(),
            forall|i: int|
                0 <= i < bounds@.len() ==> chars@.subrange(bounds@[i].0 as int, bounds@[i].1 as int)
                    == #[trigger] lines[i],
            out@ == spec_join(lines.take(k as int), "\n"@),
        decreases MAX_DIFF_LINES - k,
    {
        let (start, end) = bounds[k];
        if k > 0 {
            out.append("\n");
        }
        out.append(diff.substring_char(start, end));
        proof {
            let after = lines.take(k + 1);
            assert(after.drop_last() =~= lines.take(k as int));
            assert(after.last() == lines[k as int]);
            if k == 0 {
                assert(spec_join(after, "\n"@) == after[0]);
            }
        }
        k = k + 1;
    }
    out.append("\n(");
    push_decimal(&mut out, (bounds.len() - MAX_DIFF_LINES) as u64);
    out.append(" more diff line(s); update the pin and read the change as a git diff)");
    out
}

/// What a command run on the board answered: its output, trimmed, and
/// nothing for an answer that was empty.
pub open spec fn spec_board_answer(stdout: Seq<char>) -> Option<Seq<char>> {
    if spec_trim(stdout).len() > 0 {
        Some(spec_trim(stdout))
    } else {
        None
    }
}

/// What a command run on the board answered, from what it printed.
pub fn board_answer(stdout: &str) -> (answer: Option<String>)
    ensures
        spec_board_answer(stdout@) is None ==> answer is None,
        spec_board_answer(stdout@) matches Some(v) ==> (answer matches Some(s) && s@ == v),
{
    let chars = chars_of(stdout);
    let (a, b) = trimmed_bounds(&chars, 0, chars.len());
    assert(chars@.subrange(0, chars@.len() as int) =~= chars@);
    if a == b {
        None
    } else {
        Some(stdout.substring_char(a, b).to_owned())
    }
}

/// How the identity `SOURCE` records for a library compares with the
/// board's.
#[derive(Debug, Clone, Copy, PartialEq, Eq)]
pub enum Identity {
    /// Both were read, and they are the same.
    Same,
    /// Both were read, and they differ: the library was rebuilt.
    Drifted,
    /// `SOURCE` records no value for it.
    NotRecorded,
    /// The board did not answer.
    NoAnswer,
}

/// How a recorded identity compares with the board's.
pub open spec fn spec_identity(recorded: Option<Seq<char>>, board: Option<Seq<char>>) -> Identity {
    match (recorded, board) {
        (Some(r), Some(b)) => if r == b { Identity::Same } else { Identity::Drifted },
        (None, _) => Identity::NotRecorded,
        (Some(_), None) => Identity::NoAnswer,
    }
}

/// The view of an optional string.
pub open spec fn spec_text(s: Option<String>) -> Option<Seq<char>> {
    match s {
        Some(s) => Some(s@),
        None => None,
    }
}

/// How a recorded identity compares with the board's. Only a value that
/// was read on both sides and differs is drift; one that could not be
/// read counts as neither.
pub fn compare_identity(recorded: &Option<String>, board: &Option<String>) -> (identity: Identity)
    ensures
        identity == spec_identity(spec_text(*recorded), spec_text(*board)),
{
    match (recorded, board) {
        (Some(r), Some(b)) => if same_text(r.as_str(), b.as_str()) {
            Identity::Same
        } else {
            Identity::Drifted
        },
        (None, _) => Identity::NotRecorded,
        (Some(_), None) => Identity::NoAnswer,
    }
}

/// Whether two texts are the same.
pub fn same_text(a: &str, b: &str) -> (same: bool)
    ensures
        same == (a@ == b@),
{
    let x = chars_of(a);
    let y = chars_of(b);
    if x.len() != y.len() {
        assert(x@.len() != y@.len());
        return false;
    }
    let mut i: usize = 0;
    while i < x.len()
        invariant
            x@ == a@,
            y@ == b@,
            x@.len() == y@.len(),
            i <= x@.len(),
            forall|j: int| 0 <= j < i ==> x@[j] == y@[j],
        decreases x@.len() - i,
    {
        if x[i] != y[i] {
            assert(x@[i as int] != y@[i as int]);
            return false;
        }
        i = i + 1;
    }
    assert(x@ =~= y@);
    true
}

/// What comparing one vendored file with the board's copy found.
#[derive(Debug, Clone, Copy, PartialEq, Eq, Structural)]
pub enum Comparison {
    /// The board's copy is byte for byte the vendored one.
    Same,
    /// The board has the file, with other contents.
    Drift,
    /// The board's copy could not be fetched.
    Missing,
}

/// The tally the vendor check keeps over every file and library it
/// compares, and from which its exit status and advice follow.
#[derive(Debug, Clone, Copy, PartialEq, Eq)]
pub struct DriftTally {
    /// Vendored items that differ from the board: files that drifted or
    /// are missing, and library identity values that differ.
    pub drifted: u32,
    /// Files the board no longer carries.
    pub missing: u32,
    /// Library identity values that differ: a library was rebuilt.
    pub libraries_rebuilt: u32,
}

impl DriftTally {
    /// Nothing compared yet.
    pub fn new() -> (tally: Self)
        ensures
            tally == (DriftTally { drifted: 0, missing: 0, libraries_rebuilt: 0 }),
    {
        DriftTally { drifted: 0, missing: 0, libraries_rebuilt: 0 }
    }

    /// Counts one file: `fetched` says whether the board's copy could be
    /// fetched, `same` whether it matched the vendored one. A missing
    /// file is a drift and a missing one; a differing one is a drift.
    pub fn file(&mut self, fetched: bool, same: bool) -> (found: Comparison)
        requires
            old(self).drifted < u32::MAX,
            old(self).missing < u32::MAX,
        ensures
            !fetched ==> found == Comparison::Missing && *final(self) == (DriftTally {
                drifted: (old(self).drifted + 1) as u32,
                missing: (old(self).missing + 1) as u32,
                ..*old(self)
            }),
            fetched && same ==> found == Comparison::Same && *final(self) == *old(self),
            fetched && !same ==> found == Comparison::Drift && *final(self) == (DriftTally {
                drifted: (old(self).drifted + 1) as u32,
                ..*old(self)
            }),
    {
        if !fetched {
            self.drifted = self.drifted + 1;
            self.missing = self.missing + 1;
            Comparison::Missing
        } else if same {
            Comparison::Same
        } else {
            self.drifted = self.drifted + 1;
            Comparison::Drift
        }
    }

    /// Counts a library's identity values that differ from the board's,
    /// `rebuilt` of them: each is a drift and a sign of a rebuild.
    pub fn library(&mut self, rebuilt: u32)
        requires
            old(self).drifted + rebuilt <= u32::MAX,
            old(self).libraries_rebuilt + rebuilt <= u32::MAX,
        ensures
            *final(self) == (DriftTally {
                drifted: (old(self).drifted + rebuilt) as u32,
                missing: old(self).missing,
                libraries_rebuilt: (old(self).libraries_rebuilt + rebuilt) as u32,
            }),
    {
        self.drifted = self.drifted + rebuilt;
        self.libraries_rebuilt = self.libraries_rebuilt + rebuilt;
    }

    /// The check's exit status: 0 when nothing differs, 1 otherwise.
    pub fn exit_code(&self) -> (code: i32)
        ensures
            code == if self.drifted == 0 { 0i32 } else { 1i32 },
    {
        if self.drifted == 0 { 0 } else { 1 }
    }

    /// Whether to tell the user to re-measure the rebuilt library's
    /// behaviour: only when something differs and a library was rebuilt.
    pub fn advise_reprobe(&self) -> (advise: bool)
        ensures
            advise == (self.drifted != 0 && self.libraries_rebuilt > 0),
    {
        self.drifted != 0 && self.libraries_rebuilt > 0
    }

    /// Whether to tell the user that files the board no longer carries
    /// must be removed by hand: only when something differs and a file
    /// is missing.
    pub fn advise_pruning(&self) -> (advise: bool)
        ensures
            advise == (self.drifted != 0 && self.missing > 0),
    {
        self.drifted != 0 && self.missing > 0
    }
}

} // verus!
