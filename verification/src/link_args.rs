//! Linker arguments handed from one build script to the next.
//!
//! Cargo passes metadata between build scripts as `KEY=value` pairs,
//! one value each, so a list is published as a count and one entry per
//! argument: `LINK_ARGS_COUNT`, then `LINK_ARGS_0`, `LINK_ARGS_1` and so
//! on. A dependent script reads them back under the prefix Cargo gives
//! that dependency, such as `DEP_BELA`.

use vstd::prelude::*;

use crate::text::{decimal, digit_char, push_decimal};
use crate::vendor::{chars_of, same_text};

verus! {

/// The key of the `index`th argument, after `prefix`.
pub open spec fn spec_arg_key(prefix: Seq<char>, index: nat) -> Seq<char> {
    prefix + "LINK_ARGS_"@ + decimal(index)
}

/// The key of the count, after `prefix`.
pub open spec fn spec_count_key(prefix: Seq<char>) -> Seq<char> {
    prefix + "LINK_ARGS_COUNT"@
}

/// The texts of `args`.
pub open spec fn spec_texts(args: Seq<String>) -> Seq<Seq<char>> {
    Seq::new(args.len(), |i: int| args[i]@)
}

/// What publishing `args` with keys starting `prefix` gives: the count
/// first, then each argument under its index.
pub open spec fn spec_published(args: Seq<Seq<char>>, prefix: Seq<char>) -> Seq<(Seq<char>, Seq<char>)> {
    seq![(spec_count_key(prefix), decimal(args.len()))] + Seq::new(
        args.len(),
        |i: int| (spec_arg_key(prefix, i as nat), args[i]),
    )
}

/// The pairs `args` are published as: the count, then each argument
/// under its index.
pub fn encode_link_args(args: &Vec<String>) -> (pairs: Vec<(String, String)>)
    requires
        args@.len() <= u64::MAX,
    ensures
        spec_pairs(pairs@) == spec_published(spec_texts(args@), Seq::empty()),
        pairs@.len() == args@.len() + 1,
        pairs@[0].0@ == spec_count_key(Seq::empty()),
        pairs@[0].1@ == decimal(args@.len()),
        forall|i: int|
            0 <= i < args@.len() ==> (#[trigger] pairs@[i + 1]).0@ == spec_arg_key(
                Seq::empty(),
                i as nat,
            ) && pairs@[i + 1].1@ == args@[i]@,
{
    let mut pairs: Vec<(String, String)> = Vec::new();
    let mut count_key = String::new();
    count_key.append("LINK_ARGS_COUNT");
    let mut count = String::new();
    push_decimal(&mut count, args.len() as u64);
    assert(count_key@ =~= spec_count_key(Seq::empty()));
    pairs.push((count_key, count));
    let mut i: usize = 0;
    while i < args.len()
        invariant
            args@.len() <= u64::MAX,
            i <= args@.len(),
            pairs@.len() == i + 1,
            pairs@[0].0@ == spec_count_key(Seq::empty()),
            pairs@[0].1@ == decimal(args@.len()),
            forall|j: int|
                0 <= j < i ==> (#[trigger] pairs@[j + 1]).0@ == spec_arg_key(Seq::empty(), j as nat)
                    && pairs@[j + 1].1@ == args@[j]@,
        decreases args@.len() - i,
    {
        let mut key = String::new();
        key.append("LINK_ARGS_");
        push_decimal(&mut key, i as u64);
        assert(key@ =~= spec_arg_key(Seq::empty(), i as nat));
        let value = args[i].clone();
        pairs.push((key, value));
        i = i + 1;
    }
    let ghost published = spec_published(spec_texts(args@), Seq::empty());
    assert forall|k: int| 0 <= k < pairs@.len() implies #[trigger] spec_pairs(pairs@)[k] == published[k] by {
        if k > 0 {
            assert(pairs@[(k - 1) + 1] == pairs@[k]);
        }
    }
    assert(spec_pairs(pairs@) =~= published);
    pairs
}

/// Name and value pairs, as text.
pub open spec fn spec_pairs(vars: Seq<(String, String)>) -> Seq<(Seq<char>, Seq<char>)> {
    Seq::new(vars.len(), |i: int| (vars[i].0@, vars[i].1@))
}

/// The value the first of `vars` named `key` has.
pub open spec fn spec_lookup(vars: Seq<(Seq<char>, Seq<char>)>, key: Seq<char>) -> Option<Seq<char>>
    decreases vars.len(),
{
    if vars.len() == 0 {
        None
    } else if vars[0].0 == key {
        Some(vars[0].1)
    } else {
        spec_lookup(vars.drop_first(), key)
    }
}

/// The value of a decimal digit character, or `None` for another one.
pub open spec fn spec_digit(c: char) -> Option<nat> {
    if '0' <= c && c <= '9' {
        Some((c as nat - '0' as nat) as nat)
    } else {
        None
    }
}

/// The number the digits of `text` spell, if they all are digits.
pub open spec fn spec_digits_value(text: Seq<char>) -> Option<nat>
    decreases text.len(),
{
    if text.len() == 0 {
        Some(0)
    } else {
        match (spec_digits_value(text.drop_last()), spec_digit(text.last())) {
            (Some(high), Some(low)) => Some(high * 10 + low),
            _ => None,
        }
    }
}

/// A count as `usize`'s `from_str` reads one: an optional `+`, then at
/// least one decimal digit and nothing else, for a number that fits.
pub open spec fn spec_parse_count(text: Seq<char>) -> Option<nat> {
    let digits = if text.len() > 0 && text[0] == '+' { text.drop_first() } else { text };
    if digits.len() == 0 {
        None
    } else {
        match spec_digits_value(digits) {
            Some(n) => if n <= usize::MAX { Some(n) } else { None },
            None => None,
        }
    }
}

/// Whether every argument below `count` is published under `prefix`.
pub open spec fn spec_all_published(vars: Seq<(Seq<char>, Seq<char>)>, prefix: Seq<char>, count: nat) -> bool {
    forall|i: nat| i < count ==> #[trigger] spec_lookup(vars, spec_arg_key(prefix, i)) is Some
}

/// The arguments published under `prefix` in `vars`: none when there is
/// no count, when it is not a number, or when any entry below it is
/// missing, rather than a partial set.
pub open spec fn spec_decode(vars: Seq<(Seq<char>, Seq<char>)>, prefix: Seq<char>) -> Seq<Seq<char>> {
    match spec_lookup(vars, spec_count_key(prefix)) {
        Some(text) => match spec_parse_count(text) {
            Some(count) => if spec_all_published(vars, prefix, count) {
                Seq::new(count, |i: int| spec_lookup(vars, spec_arg_key(prefix, i as nat))->0)
            } else {
                Seq::empty()
            },
            None => Seq::empty(),
        },
        None => Seq::empty(),
    }
}

/// The value the first of `vars` named `key` has.
pub fn lookup(vars: &Vec<(String, String)>, key: &str) -> (value: Option<String>)
    ensures
        spec_lookup(spec_pairs(vars@), key@) is None ==> value is None,
        spec_lookup(spec_pairs(vars@), key@) matches Some(v) ==> (value matches Some(s) && s@ == v),
{
    let ghost pairs = spec_pairs(vars@);
    let mut k: usize = 0;
    assert(pairs.skip(0) =~= pairs);
    while k < vars.len()
        invariant
            k <= vars@.len(),
            pairs == spec_pairs(vars@),
            spec_lookup(pairs, key@) == spec_lookup(pairs.skip(k as int), key@),
        decreases vars@.len() - k,
    {
        assert(pairs.skip(k as int).drop_first() =~= pairs.skip(k + 1));
        assert(pairs.skip(k as int)[0] == pairs[k as int]);
        if same_text(vars[k].0.as_str(), key) {
            return Some(vars[k].1.clone());
        }
        k = k + 1;
    }
    None
}

proof fn lemma_digits_push(text: Seq<char>, c: char)
    ensures
        spec_digits_value(text.push(c)) == match (spec_digits_value(text), spec_digit(c)) {
            (Some(high), Some(low)) => Some(high * 10 + low),
            _ => None::<nat>,
        },
{
    assert(text.push(c).drop_last() =~= text);
}

/// A count as `usize`'s `from_str` reads one.
pub fn parse_count(text: &str) -> (count: Option<usize>)
    ensures
        spec_parse_count(text@) is None ==> count is None,
        spec_parse_count(text@) matches Some(n) ==> count == Some(n as usize),
{
    let chars = chars_of(text);
    let start: usize = if chars.len() > 0 && chars[0] == '+' { 1 } else { 0 };
    let ghost digits = if text@.len() > 0 && text@[0] == '+' { text@.drop_first() } else { text@ };
    assert(digits =~= chars@.skip(start as int));
    if start == chars.len() {
        return None;
    }
    let mut value: usize = 0;
    let mut i: usize = start;
    while i < chars.len()
        invariant
            start <= i <= chars@.len(),
            start < chars@.len(),
            chars@ == text@,
            digits == (if text@.len() > 0 && text@[0] == '+' { text@.drop_first() } else { text@ }),
            digits == chars@.skip(start as int),
            spec_digits_value(chars@.subrange(start as int, i as int)) == Some(value as nat),
        decreases chars@.len() - i,
    {
        let c = chars[i];
        proof {
            assert(chars@.subrange(start as int, i + 1) =~= chars@.subrange(start as int, i as int).push(c));
            lemma_digits_push(chars@.subrange(start as int, i as int), c);
        }
        proof {
            assert(digits.take(i - start + 1) =~= chars@.subrange(start as int, i + 1));
        }
        if c < '0' || c > '9' {
            proof {
                lemma_none_propagates(digits, (i - start + 1) as int);
            }
            return None;
        }
        let digit = (c as u32 - '0' as u32) as usize;
        let scaled = match value.checked_mul(10) {
            Some(scaled) => scaled,
            None => {
                proof {
                    lemma_digits_grow(digits, (i - start + 1) as int);
                }
                return None;
            },
        };
        value = match scaled.checked_add(digit) {
            Some(next) => next,
            None => {
                proof {
                    lemma_digits_grow(digits, (i - start + 1) as int);
                }
                return None;
            },
        };
        i = i + 1;
    }
    assert(chars@.subrange(start as int, chars@.len() as int) =~= digits);
    Some(value)
}

proof fn lemma_none_propagates(text: Seq<char>, at: int)
    requires
        0 <= at <= text.len(),
        spec_digits_value(text.take(at)) is None,
    ensures
        spec_digits_value(text) is None,
    decreases text.len() - at,
{
    if at < text.len() {
        assert(text.take(at + 1) =~= text.take(at).push(text[at]));
        lemma_digits_push(text.take(at), text[at]);
        lemma_none_propagates(text, at + 1);
    } else {
        assert(text.take(at) =~= text);
    }
}

proof fn lemma_digits_grow(text: Seq<char>, at: int)
    requires
        0 <= at <= text.len(),
        spec_digits_value(text.take(at)) matches Some(v) ==> v > usize::MAX,
    ensures
        spec_digits_value(text) matches Some(v) ==> v > usize::MAX,
    decreases text.len() - at,
{
    if at < text.len() {
        assert(text.take(at + 1) =~= text.take(at).push(text[at]));
        lemma_digits_push(text.take(at), text[at]);
        if let Some(high) = spec_digits_value(text.take(at)) {
            assert(high * 10 >= high) by (nonlinear_arith)
                requires
                    high >= 0,
            ;
        }
        lemma_digits_grow(text, at + 1);
    } else {
        assert(text.take(at) =~= text);
    }
}

/// The arguments published under `prefix` in `vars`.
pub fn decode_link_args(vars: &Vec<(String, String)>, prefix: &str) -> (args: Vec<String>)
    ensures
        args@.len() == spec_decode(spec_pairs(vars@), prefix@ + "_"@).len(),
        forall|i: int| 0 <= i < args@.len() ==> (#[trigger] args@[i])@ == spec_decode(spec_pairs(vars@), prefix@ + "_"@)[i],
{
    let ghost base = prefix@ + "_"@;
    let mut count_key = prefix.to_owned();
    count_key.append("_");
    count_key.append("LINK_ARGS_COUNT");
    assert(count_key@ =~= spec_count_key(base));
    let text = match lookup(vars, count_key.as_str()) {
        Some(text) => text,
        None => return Vec::new(),
    };
    let count = match parse_count(text.as_str()) {
        Some(count) => count,
        None => return Vec::new(),
    };
    let mut args: Vec<String> = Vec::new();
    let mut i: usize = 0;
    while i < count
        invariant
            base == prefix@ + "_"@,
            i <= count,
            spec_lookup(spec_pairs(vars@), spec_count_key(base)) == Some(text@),
            spec_parse_count(text@) == Some(count as nat),
            args@.len() == i,
            forall|j: nat| j < i ==> #[trigger] spec_lookup(spec_pairs(vars@), spec_arg_key(base, j)) is Some,
            forall|j: int|
                0 <= j < i ==> (#[trigger] args@[j])@ == spec_lookup(spec_pairs(vars@), spec_arg_key(base, j as nat))->0,
        decreases count - i,
    {
        let mut key = prefix.to_owned();
        key.append("_");
        key.append("LINK_ARGS_");
        push_decimal(&mut key, i as u64);
        assert(key@ =~= spec_arg_key(base, i as nat));
        match lookup(vars, key.as_str()) {
            Some(value) => {
                args.push(value);
            },
            None => {
                assert(!spec_all_published(spec_pairs(vars@), base, count as nat));
                return Vec::new();
            },
        }
        i = i + 1;
    }
    assert(spec_all_published(spec_pairs(vars@), base, count as nat));
    let ghost expected = spec_decode(spec_pairs(vars@), base);
    assert(expected.len() == count);
    args
}

proof fn lemma_digit_char_value(d: nat)
    requires
        d < 10,
    ensures
        spec_digit(digit_char(d)) == Some(d),
{
}

/// A number written out in decimal reads back as itself.
proof fn lemma_decimal_reads_back(n: nat)
    ensures
        spec_digits_value(decimal(n)) == Some(n),
        decimal(n).len() > 0,
        spec_digit(decimal(n)[0]) is Some,
    decreases n,
{
    if n < 10 {
        lemma_digit_char_value(n);
        let d = seq![digit_char(n)];
        assert(d.drop_last() =~= Seq::<char>::empty());
        assert(spec_digits_value(Seq::<char>::empty()) == Some(0nat));
        assert(d.last() == digit_char(n));
        assert(decimal(n) == d);
        assert(spec_digits_value(d) == Some(n));
    } else {
        lemma_decimal_reads_back(n / 10);
        lemma_digit_char_value(n % 10);
        let d = decimal(n / 10).push(digit_char(n % 10));
        assert(d.drop_last() =~= decimal(n / 10));
        assert(d.last() == digit_char(n % 10));
        assert(d[0] == decimal(n / 10)[0]);
        assert((n / 10) * 10 + n % 10 == n) by (nonlinear_arith);
        assert(decimal(n) == d);
        assert(spec_digits_value(d) == Some(n));
    }
}

proof fn lemma_lookup_first(vars: Seq<(Seq<char>, Seq<char>)>, key: Seq<char>, k: int)
    requires
        0 <= k < vars.len(),
        vars[k].0 == key,
        forall|j: int| 0 <= j < k ==> #[trigger] vars[j].0 != key,
    ensures
        spec_lookup(vars, key) == Some(vars[k].1),
    decreases k,
{
    if k > 0 {
        let rest = vars.drop_first();
        assert forall|j: int| 0 <= j < k - 1 implies #[trigger] rest[j].0 != key by {
            assert(rest[j] == vars[j + 1]);
        }
        assert(rest[k - 1] == vars[k]);
        lemma_lookup_first(rest, key, k - 1);
    }
}

/// What is published under a prefix is what decoding under it reads
/// back: the same arguments, in the same order.
pub proof fn lemma_decoding_reads_back_what_was_published(args: Seq<Seq<char>>, prefix: Seq<char>)
    requires
        args.len() <= usize::MAX,
    ensures
        spec_decode(spec_published(args, prefix), prefix) == args,
{
    let vars = spec_published(args, prefix);
    let n = args.len();
    reveal_strlit("LINK_ARGS_COUNT");
    reveal_strlit("LINK_ARGS_");
    let stem = prefix + "LINK_ARGS_"@;
    // Every argument key differs from the count key and from the others.
    assert forall|i: nat, j: int|
        #![trigger vars[j], spec_arg_key(prefix, i)]
        0 <= j < vars.len() && vars[j].0 == spec_arg_key(prefix, i) implies j == i + 1 by {
        lemma_decimal_reads_back(i);
        if j == 0 {
            let a = spec_arg_key(prefix, i);
            let c = spec_count_key(prefix);
            assert(a[stem.len() as int] == decimal(i)[0]);
            assert(c[stem.len() as int] == 'C');
        } else {
            let m = (j - 1) as nat;
            lemma_decimal_reads_back(m);
            let a = spec_arg_key(prefix, i);
            let b = spec_arg_key(prefix, m);
            assert(a.skip(stem.len() as int) =~= decimal(i));
            assert(b.skip(stem.len() as int) =~= decimal(m));
        }
    }
    assert(vars[0].0 == spec_count_key(prefix));
    lemma_lookup_first(vars, spec_count_key(prefix), 0);
    lemma_decimal_reads_back(n);
    assert(spec_parse_count(decimal(n)) == Some(n));
    assert forall|i: nat| i < n implies #[trigger] spec_lookup(vars, spec_arg_key(prefix, i))
        == Some(args[i as int]) by {
        assert(vars[i + 1int] == (spec_arg_key(prefix, i), args[i as int]));
        lemma_lookup_first(vars, spec_arg_key(prefix, i), i + 1int);
    }
    assert(spec_all_published(vars, prefix, n));
    assert(spec_decode(vars, prefix) =~= args);
}

} // verus!
