//! Checks on the bindings the generator writes.

use vstd::prelude::*;

use crate::vendor::chars_of;

verus! {

/// Whether `pattern` occurs in `text` starting at `at`.
pub open spec fn spec_occurs_at(text: Seq<char>, pattern: Seq<char>, at: int) -> bool {
    0 <= at && at + pattern.len() <= text.len() && text.subrange(at, at + pattern.len()) == pattern
}

/// Where `pattern` first occurs in `text`, at `from` or after.
pub open spec fn spec_first(text: Seq<char>, pattern: Seq<char>, from: int) -> Option<int>
    decreases text.len() + 1 - from,
{
    if from < 0 || from + pattern.len() > text.len() {
        None
    } else if spec_occurs_at(text, pattern, from) {
        Some(from)
    } else {
        spec_first(text, pattern, from + 1)
    }
}

/// Where `pattern` last occurs in `text`, starting before `before`.
pub open spec fn spec_last(text: Seq<char>, pattern: Seq<char>, before: int) -> Option<int>
    decreases before,
{
    if before <= 0 {
        None
    } else if spec_occurs_at(text, pattern, before - 1) {
        Some(before - 1)
    } else {
        spec_last(text, pattern, before - 1)
    }
}

proof fn lemma_first_occurs(text: Seq<char>, pattern: Seq<char>, from: int)
    ensures
        spec_first(text, pattern, from) matches Some(i) ==> from <= i && spec_occurs_at(text, pattern, i),
    decreases text.len() + 1 - from,
{
    if !(from < 0 || from + pattern.len() > text.len()) && !spec_occurs_at(text, pattern, from) {
        lemma_first_occurs(text, pattern, from + 1);
    }
}

proof fn lemma_last_occurs(text: Seq<char>, pattern: Seq<char>, before: int)
    ensures
        spec_last(text, pattern, before) matches Some(i) ==> i < before && spec_occurs_at(text, pattern, i),
    decreases before,
{
    if before > 0 && !spec_occurs_at(text, pattern, before - 1) {
        lemma_last_occurs(text, pattern, before - 1);
    }
}

/// Whether `gpio_setup` came out of the generator with a doc comment:
/// whether, between the `unsafe extern` block that opens it and the
/// function itself, there is a `[doc` attribute. That comment is
/// `GPIOcontrol.h`'s banner for the whole family, not documentation of
/// this one function.
pub open spec fn spec_gpio_setup_is_documented(generated: Seq<char>) -> bool {
    match spec_first(generated, "pub fn gpio_setup"@, 0) {
        None => false,
        Some(at) => {
            let before = generated.take(at);
            match spec_last(before, "unsafe extern"@, before.len() as int) {
                None => false,
                Some(open) => spec_first(
                    before.skip(open + "unsafe extern"@.len()),
                    "[doc"@,
                    0,
                ) is Some,
            }
        },
    }
}

/// Whether `pattern` occurs in `text` at `at`.
fn occurs_at(text: &Vec<char>, pattern: &Vec<char>, at: usize) -> (found: bool)
    ensures
        found == spec_occurs_at(text@, pattern@, at as int),
{
    if at > text.len() || pattern.len() > text.len() - at {
        return false;
    }
    let mut j: usize = 0;
    while j < pattern.len()
        invariant
            at + pattern@.len() <= text@.len(),
            text@.len() <= usize::MAX,
            j <= pattern@.len(),
            forall|i: int| 0 <= i < j ==> text@[at + i] == pattern@[i],
        decreases pattern@.len() - j,
    {
        assert(at + j < text@.len());
        if text[at + j] != pattern[j] {
            assert(text@.subrange(at as int, at + pattern@.len())[j as int] != pattern@[j as int]);
            return false;
        }
        j = j + 1;
    }
    assert(text@.subrange(at as int, at + pattern@.len()) =~= pattern@);
    true
}

/// Where `pattern` first occurs in `text`.
pub fn find(text: &Vec<char>, pattern: &Vec<char>) -> (at: Option<usize>)
    ensures
        at is Some <==> spec_first(text@, pattern@, 0) is Some,
        at matches Some(i) ==> spec_first(text@, pattern@, 0) == Some(i as int),
{
    if pattern.len() > text.len() {
        return None;
    }
    let last = text.len() - pattern.len();
    let mut i: usize = 0;
    loop
        invariant
            last + pattern@.len() == text@.len(),
            i <= last,
            spec_first(text@, pattern@, 0) == spec_first(text@, pattern@, i as int),
        decreases last - i,
    {
        if occurs_at(text, pattern, i) {
            return Some(i);
        }
        if i == last {
            assert(spec_first(text@, pattern@, i + 1) is None);
            return None;
        }
        i = i + 1;
    }
}

/// Where `pattern` last occurs in `text`.
pub fn rfind(text: &Vec<char>, pattern: &Vec<char>) -> (at: Option<usize>)
    ensures
        at is Some <==> spec_last(text@, pattern@, text@.len() as int) is Some,
        at matches Some(i) ==> spec_last(text@, pattern@, text@.len() as int) == Some(i as int),
{
    let mut i: usize = text.len();
    while i > 0
        invariant
            i <= text@.len(),
            spec_last(text@, pattern@, text@.len() as int) == spec_last(text@, pattern@, i as int),
        decreases i,
    {
        if occurs_at(text, pattern, i - 1) {
            return Some(i - 1);
        }
        i = i - 1;
    }
    None
}

/// `text[from..to]`, copied.
fn copy_range(text: &Vec<char>, from: usize, to: usize) -> (part: Vec<char>)
    requires
        from <= to <= text@.len(),
    ensures
        part@ == text@.subrange(from as int, to as int),
{
    let mut part: Vec<char> = Vec::new();
    let mut i = from;
    while i < to
        invariant
            from <= i <= to <= text@.len(),
            part@ == text@.subrange(from as int, i as int),
        decreases to - i,
    {
        part.push(text[i]);
        i = i + 1;
        assert(part@ =~= text@.subrange(from as int, i as int));
    }
    part
}

/// Whether `gpio_setup` came out of the generator with a doc comment.
pub fn gpio_setup_is_documented(generated: &str) -> (documented: bool)
    ensures
        documented == spec_gpio_setup_is_documented(generated@),
{
    let text = chars_of(generated);
    let function = chars_of("pub fn gpio_setup");
    let block = chars_of("unsafe extern");
    let doc = chars_of("[doc");
    let at = match find(&text, &function) {
        Some(at) => at,
        None => return false,
    };
    proof {
        lemma_first_occurs(text@, function@, 0);
    }
    let before = copy_range(&text, 0, at);
    assert(before@ =~= text@.take(at as int));
    let open = match rfind(&before, &block) {
        Some(open) => open,
        None => return false,
    };
    proof {
        lemma_last_occurs(before@, block@, before@.len() as int);
    }
    let attrs = copy_range(&before, open + block.len(), before.len());
    assert(attrs@ =~= before@.skip(open + block@.len()));
    find(&attrs, &doc).is_some()
}

} // verus!
