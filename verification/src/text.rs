//! Scalars as text: white space and tokens, truth values and integers.

use vstd::prelude::*;
use crate::error::{Error, ErrorView, Result, parse_bool, parse_int};

verus! {

/// White space: the code points that Unicode classes as
/// `White_Space`.
pub open spec fn whitespace(c: char) -> bool {
    let n = c as int;
    ||| 0x09 <= n <= 0x0D
    ||| n == 0x20
    ||| n == 0x85
    ||| n == 0xA0
    ||| n == 0x1680
    ||| 0x2000 <= n <= 0x200A
    ||| n == 0x2028
    ||| n == 0x2029
    ||| n == 0x202F
    ||| n == 0x205F
    ||| n == 0x3000
}

/// Whether `c` is white space.
pub fn is_whitespace(c: char) -> (r: bool)
    ensures
        r == whitespace(c),
{
    let n: u32 = c as u32;
    (0x09 <= n && n <= 0x0D) || n == 0x20 || n == 0x85 || n == 0xA0 || n == 0x1680 || (0x2000 <= n
        && n <= 0x200A) || n == 0x2028 || n == 0x2029 || n == 0x202F || n == 0x205F || n == 0x3000
}

/// `word` as a list of tokens: one token, or none where it is empty.
pub open spec fn finished(word: Seq<char>) -> Seq<Seq<char>> {
    if word.len() > 0 {
        seq![word]
    } else {
        Seq::empty()
    }
}

/// The tokens of `rest`, read behind a token `word` that has begun: the
/// maximal runs without white space.
pub open spec fn tokens_after(word: Seq<char>, rest: Seq<char>) -> Seq<Seq<char>>
    decreases rest.len(),
{
    if rest.len() == 0 {
        finished(word)
    } else if whitespace(rest[0]) {
        finished(word) + tokens_after(Seq::empty(), rest.skip(1))
    } else {
        tokens_after(word.push(rest[0]), rest.skip(1))
    }
}

/// The tokens of a text: its maximal runs without white space, in order.
pub open spec fn tokens(text: Seq<char>) -> Seq<Seq<char>> {
    tokens_after(Seq::empty(), text)
}

/// The texts joined by single spaces.
pub open spec fn joined(items: Seq<Seq<char>>) -> Seq<char>
    decreases items.len(),
{
    if items.len() == 0 {
        Seq::empty()
    } else if items.len() == 1 {
        items[0]
    } else {
        joined(items.drop_last()) + seq![' '] + items.last()
    }
}

/// Whether two texts are the same text.
pub fn same_text(a: &str, b: &str) -> (r: bool)
    ensures
        r == (a@ == b@),
{
    let a = String::from_str(a);
    let b = String::from_str(b);
    a == b
}

/// The value of an optional text.
pub open spec fn text_view(text: Option<String>) -> Option<Seq<char>> {
    match text {
        Some(t) => Some(t@),
        None => None,
    }
}

/// The views of a list of texts.
pub open spec fn texts_view(items: Seq<String>) -> Seq<Seq<char>> {
    items.map_values(|s: String| s@)
}

/// `String::push`: appends one character.
#[verifier::external_body]
fn push_char(s: &mut String, c: char)
    ensures
        final(s)@ == old(s)@.push(c),
{
    s.push(c)
}

/// Splits a text on runs of white space.
pub fn split_whitespace(text: &str) -> (items: Vec<String>)
    ensures
        texts_view(items@) == tokens(text@),
{
    let mut items: Vec<String> = Vec::new();
    let mut word = String::new();
    let mut begun = false;
    assert(text@.skip(0) =~= text@);
    for c in it: text.chars()
        invariant
            it.seq() == text@,
            begun == (word@.len() > 0),
            texts_view(items@) + tokens_after(word@, text@.skip(it.index())) == tokens(text@),
    {
        let ghost rest = text@.skip(it.index());
        assert(rest.skip(1) =~= text@.skip(it.index() + 1));
        if is_whitespace(c) {
            if begun {
                items.push(word);
                word = String::new();
                begun = false;
            } else {
                assert(word@ =~= Seq::<char>::empty());
            }
        } else {
            push_char(&mut word, c);
            begun = true;
        }
    }
    if begun {
        items.push(word);
    }
    items
}

/// Joins texts by single spaces.
pub fn join_spaced(items: &Vec<String>) -> (text: String)
    ensures
        text@ == joined(texts_view(items@)),
{
    let mut text = String::new();
    let mut i: usize = 0;
    while i < items.len()
        invariant
            i <= items.len(),
            text@ == joined(texts_view(items@).take(i as int)),
        decreases items.len() - i,
    {
        let ghost before = texts_view(items@).take(i as int);
        let ghost after = texts_view(items@).take(i + 1);
        assert(after.drop_last() =~= before);
        if i > 0 {
            text.append(" ");
            proof {
                reveal_strlit(" ");
            }
        }
        text.append(items[i].as_str());
        i = i + 1;
    }
    assert(texts_view(items@).take(i as int) =~= texts_view(items@));
    text
}

/// The number that a decimal digit stands for.
pub open spec fn digit_value(c: char) -> Option<nat> {
    if '0' <= c <= '9' {
        Some((c as int - '0' as int) as nat)
    } else {
        None
    }
}

/// The decimal digit of a number below ten.
pub open spec fn digit_char(d: nat) -> char
    recommends
        d < 10,
{
    (d + '0' as int) as char
}

/// The number that a run of decimal digits stands for; none for the
/// empty text and for a text that holds anything else.
pub open spec fn digits_value(s: Seq<char>) -> Option<nat>
    decreases s.len(),
{
    if s.len() == 0 {
        None
    } else {
        match digit_value(s.last()) {
            None => None,
            Some(d) => if s.len() == 1 {
                Some(d)
            } else {
                match digits_value(s.drop_last()) {
                    Some(v) => Some(v * 10 + d),
                    None => None,
                }
            },
        }
    }
}

/// The number that a text stands for as an unsigned decimal: digits
/// behind an optional plus sign.
pub open spec fn unsigned_value(s: Seq<char>) -> Option<nat> {
    if s.len() > 0 && s[0] == '+' {
        digits_value(s.skip(1))
    } else {
        digits_value(s)
    }
}

/// The number that a text stands for as a signed decimal: digits behind
/// an optional sign.
pub open spec fn signed_value(s: Seq<char>) -> Option<int> {
    if s.len() > 0 && s[0] == '-' {
        match digits_value(s.skip(1)) {
            Some(v) => Some(-(v as int)),
            None => None,
        }
    } else {
        match unsigned_value(s) {
            Some(v) => Some(v as int),
            None => None,
        }
    }
}

/// The decimal digits of a number, without leading zeros.
pub open spec fn digits(n: nat) -> Seq<char>
    decreases n,
{
    if n < 10 {
        seq![digit_char(n)]
    } else {
        digits(n / 10).push(digit_char(n % 10))
    }
}

/// The decimal text of an integer: its digits, behind a minus sign where
/// it is negative.
pub open spec fn decimal(v: int) -> Seq<char> {
    if v < 0 {
        seq!['-'] + digits((-v) as nat)
    } else {
        digits(v as nat)
    }
}

/// The text of a truth value.
pub open spec fn truth_text(b: bool) -> Seq<char> {
    if b {
        "true"@
    } else {
        "false"@
    }
}

/// `str::parse::<i64>`: the text is read as a signed decimal, and is
/// refused where it is none or its number does not fit.
#[verifier::external_body]
fn std_parse_i64(s: &str) -> (r: std::result::Result<i64, std::num::ParseIntError>)
    ensures
        match r {
            Ok(v) => signed_value(s@) == Some(v as int),
            Err(_) => !(signed_value(s@) matches Some(v) && i64::MIN <= v <= i64::MAX),
        },
{
    s.parse::<i64>()
}

/// `str::parse::<u64>`: the text is read as an unsigned decimal, and is
/// refused where it is none or its number does not fit.
#[verifier::external_body]
fn std_parse_u64(s: &str) -> (r: std::result::Result<u64, std::num::ParseIntError>)
    ensures
        match r {
            Ok(v) => unsigned_value(s@) == Some(v as nat),
            Err(_) => !(unsigned_value(s@) matches Some(v) && v <= u64::MAX),
        },
{
    s.parse::<u64>()
}

/// `str::parse::<i128>`: the text is read as a signed decimal, and is
/// refused where it is none or its number does not fit.
#[verifier::external_body]
fn std_parse_i128(s: &str) -> (r: std::result::Result<i128, std::num::ParseIntError>)
    ensures
        match r {
            Ok(v) => signed_value(s@) == Some(v as int),
            Err(_) => !(signed_value(s@) matches Some(v) && i128::MIN <= v <= i128::MAX),
        },
{
    s.parse::<i128>()
}

/// `str::parse::<u128>`: the text is read as an unsigned decimal, and is
/// refused where it is none or its number does not fit.
#[verifier::external_body]
fn std_parse_u128(s: &str) -> (r: std::result::Result<u128, std::num::ParseIntError>)
    ensures
        match r {
            Ok(v) => unsigned_value(s@) == Some(v as nat),
            Err(_) => !(unsigned_value(s@) matches Some(v) && v <= u128::MAX),
        },
{
    s.parse::<u128>()
}

/// `str::parse::<bool>`: the text is `true` or `false`, or it is refused.
#[verifier::external_body]
fn std_parse_bool(s: &str) -> (r: std::result::Result<bool, std::str::ParseBoolError>)
    ensures
        match r {
            Ok(b) => s@ == truth_text(b),
            Err(_) => s@ != truth_text(true) && s@ != truth_text(false),
        },
{
    s.parse::<bool>()
}

/// The error for a text that is no integer of the type `target`.
pub open spec fn no_integer(s: Seq<char>, target: Seq<char>) -> ErrorView {
    ErrorView::ParseInt(None).naming(s, target)
}

/// The error for a text that is no truth value.
pub open spec fn no_truth(s: Seq<char>) -> ErrorView {
    ErrorView::ParseBool(None).naming(s, "bool"@)
}

/// What reading a text as a signed integer from `low` to `high` gives:
/// the number that the text stands for, where it lies between the two;
/// `target` names the type in the error.
pub open spec fn read_signed(s: Seq<char>, low: int, high: int, target: Seq<char>)
    -> std::result::Result<int, ErrorView> {
    match signed_value(s) {
        Some(v) => if low <= v <= high {
            Ok(v)
        } else {
            Err(no_integer(s, target))
        },
        None => Err(no_integer(s, target)),
    }
}

/// What reading a text as an unsigned integer up to `high` gives.
pub open spec fn read_unsigned(s: Seq<char>, high: int, target: Seq<char>)
    -> std::result::Result<int, ErrorView> {
    match unsigned_value(s) {
        Some(v) => if v <= high {
            Ok(v as int)
        } else {
            Err(no_integer(s, target))
        },
        None => Err(no_integer(s, target)),
    }
}

/// What reading a text as a signed integer of 64 bits gives.
pub open spec fn read_i64(s: Seq<char>) -> std::result::Result<int, ErrorView> {
    read_signed(s, i64::MIN as int, i64::MAX as int, "i64"@)
}

/// What reading a text as an unsigned integer of 64 bits gives.
pub open spec fn read_u64(s: Seq<char>) -> std::result::Result<int, ErrorView> {
    read_unsigned(s, u64::MAX as int, "u64"@)
}

/// What reading a text as a truth value gives.
pub open spec fn read_bool(s: Seq<char>) -> std::result::Result<bool, ErrorView> {
    if s == truth_text(true) {
        Ok(true)
    } else if s == truth_text(false) {
        Ok(false)
    } else {
        Err(no_truth(s))
    }
}

/// Reads a text as a signed integer.
pub fn parse_i64(s: &str) -> (r: Result<i64>)
    ensures
        match r {
            Ok(v) => read_i64(s@) == Ok::<int, ErrorView>(v as int),
            Err(e) => read_i64(s@) == Err::<int, ErrorView>(e@),
        },
{
    match std_parse_i64(s) {
        Ok(v) => Ok(v),
        Err(e) => Err(parse_int(e).naming(s, "i64")),
    }
}

/// Reads a text as an unsigned integer.
pub fn parse_u64(s: &str) -> (r: Result<u64>)
    ensures
        match r {
            Ok(v) => read_u64(s@) == Ok::<int, ErrorView>(v as int),
            Err(e) => read_u64(s@) == Err::<int, ErrorView>(e@),
        },
{
    match std_parse_u64(s) {
        Ok(v) => Ok(v),
        Err(e) => Err(parse_int(e).naming(s, "u64")),
    }
}

/// The error for a text whose number lies above the integers of the type
/// `target`: it holds what std says of a number that is too large.
fn too_large(s: &str, target: &str) -> (e: Error)
    ensures
        e@ == no_integer(s@, target@),
{
    let above = format_u64(u64::MAX);
    proof {
        lemma_decimal_signed(u64::MAX as int);
    }
    match std_parse_i64(above.as_str()) {
        Ok(_) => vstd::pervasive::unreached(),
        Err(cause) => parse_int(cause).naming(s, target),
    }
}

/// The error for a text whose number lies below the integers of the type
/// `target`: it holds what std says of a number that is too small.
fn too_small(s: &str, target: &str) -> (e: Error)
    ensures
        e@ == no_integer(s@, target@),
{
    let mut below = String::new();
    push_char(&mut below, '-');
    push_digits(&mut below, u64::MAX);
    proof {
        assert(below@ =~= decimal(-(u64::MAX as int)));
        lemma_decimal_signed(-(u64::MAX as int));
    }
    match std_parse_i64(below.as_str()) {
        Ok(_) => vstd::pervasive::unreached(),
        Err(cause) => parse_int(cause).naming(s, target),
    }
}

/// Reads a text as a signed integer from `low` to `high`.
fn parse_signed(s: &str, low: i64, high: i64, target: &str) -> (r: Result<i64>)
    ensures
        match r {
            Ok(v) => read_signed(s@, low as int, high as int, target@) == Ok::<int, ErrorView>(
                v as int,
            ),
            Err(e) => read_signed(s@, low as int, high as int, target@) == Err::<int, ErrorView>(
                e@,
            ),
        },
{
    match std_parse_i64(s) {
        Ok(v) => if v < low {
            Err(too_small(s, target))
        } else if v > high {
            Err(too_large(s, target))
        } else {
            Ok(v)
        },
        Err(e) => Err(parse_int(e).naming(s, target)),
    }
}

/// Reads a text as an unsigned integer up to `high`.
fn parse_unsigned(s: &str, high: u64, target: &str) -> (r: Result<u64>)
    ensures
        match r {
            Ok(v) => read_unsigned(s@, high as int, target@) == Ok::<int, ErrorView>(v as int),
            Err(e) => read_unsigned(s@, high as int, target@) == Err::<int, ErrorView>(e@),
        },
{
    match std_parse_u64(s) {
        Ok(v) => if v > high {
            Err(too_large(s, target))
        } else {
            Ok(v)
        },
        Err(e) => Err(parse_int(e).naming(s, target)),
    }
}

/// Reads a text as a signed integer of 8 bits.
pub fn parse_i8(s: &str) -> (r: Result<i8>)
    ensures
        match r {
            Ok(v) => read_signed(s@, i8::MIN as int, i8::MAX as int, "i8"@) == Ok::<int, ErrorView>(
                v as int,
            ),
            Err(e) => read_signed(s@, i8::MIN as int, i8::MAX as int, "i8"@) == Err::<
                int,
                ErrorView,
            >(e@),
        },
{
    match parse_signed(s, i8::MIN as i64, i8::MAX as i64, "i8") {
        Ok(v) => Ok(v as i8),
        Err(e) => Err(e),
    }
}

/// Reads a text as a signed integer of 16 bits.
pub fn parse_i16(s: &str) -> (r: Result<i16>)
    ensures
        match r {
            Ok(v) => read_signed(s@, i16::MIN as int, i16::MAX as int, "i16"@) == Ok::<
                int,
                ErrorView,
            >(v as int),
            Err(e) => read_signed(s@, i16::MIN as int, i16::MAX as int, "i16"@) == Err::<
                int,
                ErrorView,
            >(e@),
        },
{
    match parse_signed(s, i16::MIN as i64, i16::MAX as i64, "i16") {
        Ok(v) => Ok(v as i16),
        Err(e) => Err(e),
    }
}

/// Reads a text as a signed integer of 32 bits.
pub fn parse_i32(s: &str) -> (r: Result<i32>)
    ensures
        match r {
            Ok(v) => read_signed(s@, i32::MIN as int, i32::MAX as int, "i32"@) == Ok::<
                int,
                ErrorView,
            >(v as int),
            Err(e) => read_signed(s@, i32::MIN as int, i32::MAX as int, "i32"@) == Err::<
                int,
                ErrorView,
            >(e@),
        },
{
    match parse_signed(s, i32::MIN as i64, i32::MAX as i64, "i32") {
        Ok(v) => Ok(v as i32),
        Err(e) => Err(e),
    }
}

/// Reads a text as an unsigned integer of 8 bits.
pub fn parse_u8(s: &str) -> (r: Result<u8>)
    ensures
        match r {
            Ok(v) => read_unsigned(s@, u8::MAX as int, "u8"@) == Ok::<int, ErrorView>(v as int),
            Err(e) => read_unsigned(s@, u8::MAX as int, "u8"@) == Err::<int, ErrorView>(e@),
        },
{
    match parse_unsigned(s, u8::MAX as u64, "u8") {
        Ok(v) => Ok(v as u8),
        Err(e) => Err(e),
    }
}

/// Reads a text as an unsigned integer of 16 bits.
pub fn parse_u16(s: &str) -> (r: Result<u16>)
    ensures
        match r {
            Ok(v) => read_unsigned(s@, u16::MAX as int, "u16"@) == Ok::<int, ErrorView>(v as int),
            Err(e) => read_unsigned(s@, u16::MAX as int, "u16"@) == Err::<int, ErrorView>(e@),
        },
{
    match parse_unsigned(s, u16::MAX as u64, "u16") {
        Ok(v) => Ok(v as u16),
        Err(e) => Err(e),
    }
}

/// Reads a text as an unsigned integer of 32 bits.
pub fn parse_u32(s: &str) -> (r: Result<u32>)
    ensures
        match r {
            Ok(v) => read_unsigned(s@, u32::MAX as int, "u32"@) == Ok::<int, ErrorView>(v as int),
            Err(e) => read_unsigned(s@, u32::MAX as int, "u32"@) == Err::<int, ErrorView>(e@),
        },
{
    match parse_unsigned(s, u32::MAX as u64, "u32") {
        Ok(v) => Ok(v as u32),
        Err(e) => Err(e),
    }
}

/// Reads a text as a signed integer of 128 bits.
pub fn parse_i128(s: &str) -> (r: Result<i128>)
    ensures
        match r {
            Ok(v) => read_signed(s@, i128::MIN as int, i128::MAX as int, "i128"@) == Ok::<
                int,
                ErrorView,
            >(v as int),
            Err(e) => read_signed(s@, i128::MIN as int, i128::MAX as int, "i128"@) == Err::<
                int,
                ErrorView,
            >(e@),
        },
{
    match std_parse_i128(s) {
        Ok(v) => Ok(v),
        Err(e) => Err(parse_int(e).naming(s, "i128")),
    }
}

/// Reads a text as an unsigned integer of 128 bits.
pub fn parse_u128(s: &str) -> (r: Result<u128>)
    ensures
        match r {
            Ok(v) => read_unsigned(s@, u128::MAX as int, "u128"@) == Ok::<int, ErrorView>(v as int),
            Err(e) => read_unsigned(s@, u128::MAX as int, "u128"@) == Err::<int, ErrorView>(e@),
        },
{
    match std_parse_u128(s) {
        Ok(v) => Ok(v),
        Err(e) => Err(parse_int(e).naming(s, "u128")),
    }
}

/// Reads a text as a truth value.
pub fn parse_truth(s: &str) -> (r: Result<bool>)
    ensures
        match r {
            Ok(b) => read_bool(s@) == Ok::<bool, ErrorView>(b),
            Err(e) => read_bool(s@) == Err::<bool, ErrorView>(e@),
        },
{
    proof {
        lemma_truth_texts_differ();
    }
    match std_parse_bool(s) {
        Ok(b) => Ok(b),
        Err(e) => Err(parse_bool(e).naming(s, "bool")),
    }
}

/// The two texts of truth values are different texts.
pub proof fn lemma_truth_texts_differ()
    ensures
        truth_text(true) != truth_text(false),
{
    reveal_strlit("true");
    reveal_strlit("false");
    assert(truth_text(true).len() == 4);
}

/// The decimal digit of a number below ten.
fn digit_of(d: u8) -> (c: char)
    requires
        d < 10,
    ensures
        c == digit_char(d as nat),
{
    let code: u8 = 48 + d;
    code as char
}

/// Writes the digits of `v` behind what `s` holds.
fn push_digits(s: &mut String, v: u64)
    ensures
        final(s)@ == old(s)@ + digits(v as nat),
{
    let mut rest: Vec<char> = Vec::new();
    let mut n = v;
    while n >= 10
        invariant
            digits(v as nat) == digits(n as nat) + rest@.reverse(),
        decreases n,
    {
        let d: u8 = (n % 10) as u8;
        rest.push(digit_of(d));
        n = n / 10;
    }
    push_char(s, digit_of(n as u8));
    while rest.len() > 0
        invariant
            s@ + rest@.reverse() == old(s)@ + digits(v as nat),
        decreases rest.len(),
    {
        let c = rest.pop().unwrap();
        push_char(s, c);
    }
}

/// The decimal text of a signed integer.
pub fn format_i64(v: i64) -> (s: String)
    ensures
        s@ == decimal(v as int),
{
    let mut s = String::new();
    if v < 0 {
        let size: u64 = ((-(v + 1)) as u64) + 1;
        s.append("-");
        proof {
            reveal_strlit("-");
        }
        push_digits(&mut s, size);
    } else {
        push_digits(&mut s, v as u64);
    }
    s
}

/// The decimal text of an unsigned integer.
pub fn format_u64(v: u64) -> (s: String)
    ensures
        s@ == decimal(v as int),
{
    let mut s = String::new();
    push_digits(&mut s, v);
    s
}

/// The text of a truth value.
pub fn format_truth(b: bool) -> (s: String)
    ensures
        s@ == truth_text(b),
{
    if b {
        String::from_str("true")
    } else {
        String::from_str("false")
    }
}

/// A text that is one token: not empty, and without white space.
pub open spec fn is_token(text: Seq<char>) -> bool {
    text.len() > 0 && forall|i: int| 0 <= i < text.len() ==> !whitespace(#[trigger] text[i])
}

/// Behind a begun token, a run without white space only makes the token
/// longer.
pub proof fn lemma_tokens_run(word: Seq<char>, run: Seq<char>, rest: Seq<char>)
    requires
        forall|i: int| 0 <= i < run.len() ==> !whitespace(#[trigger] run[i]),
    ensures
        tokens_after(word, run + rest) == tokens_after(word + run, rest),
    decreases run.len(),
{
    if run.len() != 0 {
        let all = run + rest;
        assert(all.skip(1) =~= run.skip(1) + rest);
        lemma_tokens_run(word.push(run[0]), run.skip(1), rest);
        assert(word.push(run[0]) + run.skip(1) =~= word + run);
    }
}

/// The tokens of texts that are joined by single spaces, with more text
/// behind them: all but the last text, and the last one as a begun token.
pub proof fn lemma_tokens_joined_before(items: Seq<Seq<char>>, rest: Seq<char>)
    requires
        items.len() > 0,
        forall|i: int| 0 <= i < items.len() ==> is_token(#[trigger] items[i]),
    ensures
        tokens_after(Seq::empty(), joined(items) + rest) == items.drop_last() + tokens_after(
            items.last(),
            rest,
        ),
    decreases items.len(),
{
    let last = items.last();
    if items.len() == 1 {
        lemma_tokens_run(Seq::empty(), last, rest);
    } else {
        let init = items.drop_last();
        let behind = seq![' '] + (last + rest);
        assert(joined(items) + rest =~= joined(init) + behind);
        lemma_tokens_joined_before(init, behind);
        assert(behind.skip(1) =~= last + rest);
        lemma_tokens_run(Seq::empty(), last, rest);
    }
}

/// Tokens that are joined by single spaces come apart into the same
/// tokens.
pub proof fn lemma_tokens_of_joined(items: Seq<Seq<char>>)
    requires
        forall|i: int| 0 <= i < items.len() ==> is_token(#[trigger] items[i]),
    ensures
        tokens(joined(items)) == items,
{
    if items.len() != 0 {
        lemma_tokens_joined_before(items, Seq::empty());
    }
}

/// The digits of a number are digits, and stand for the number.
pub proof fn lemma_digits(n: nat)
    ensures
        digits_value(digits(n)) == Some(n),
        digits(n).len() > 0,
        forall|i: int| 0 <= i < digits(n).len() ==> digit_value(#[trigger] digits(n)[i]) is Some,
    decreases n,
{
    if n >= 10 {
        lemma_digits(n / 10);
        let init = digits(n / 10);
        let all = digits(n);
        assert(all.drop_last() =~= init);
    }
}

/// The decimal text of an integer stands for the integer.
pub proof fn lemma_decimal_signed(v: int)
    ensures
        signed_value(decimal(v)) == Some(v),
{
    if v < 0 {
        lemma_digits((-v) as nat);
        assert(decimal(v).skip(1) =~= digits((-v) as nat));
    } else {
        lemma_digits(v as nat);
    }
}

/// The decimal text of a natural number stands for the number.
pub proof fn lemma_decimal_unsigned(n: nat)
    ensures
        unsigned_value(decimal(n as int)) == Some(n),
{
    lemma_digits(n);
}

/// The decimal text of an integer is one token.
pub proof fn lemma_decimal_token(v: int)
    ensures
        is_token(decimal(v)),
{
    let n = if v < 0 {
        (-v) as nat
    } else {
        v as nat
    };
    lemma_digits(n);
}

/// The text of a truth value is one token, and stands for the truth
/// value.
pub proof fn lemma_truth(b: bool)
    ensures
        is_token(truth_text(b)),
        read_bool(truth_text(b)) == Ok::<bool, ErrorView>(b),
{
    lemma_truth_texts_differ();
    reveal_strlit("true");
    reveal_strlit("false");
}

} // verus!
