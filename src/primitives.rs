use vstd::prelude::*;
use crate::output::{Model, Outcome, ParserOutput, filter_outcome, is_suffix_of, keeps_suffix};
use crate::combinators::{Parser, at_least_one, get_all, nothing_matched_message, repeat};

verus! {

/// Whether `char::is_numeric` holds of `c`.
pub uninterp spec fn numeric(c: char) -> bool;

/// Whether `char::is_alphabetic` holds of `c`.
pub uninterp spec fn alphabetic(c: char) -> bool;

/// Whether `char::is_whitespace` holds of `c`.
pub uninterp spec fn whitespace(c: char) -> bool;

/// Relies on char::is_numeric, to classify a character.
#[verifier::external_body]
fn char_is_numeric(c: char) -> (r: bool)
    ensures
        r == numeric(c),
{
    c.is_numeric()
}

/// Relies on char::is_alphabetic, to classify a character.
#[verifier::external_body]
fn char_is_alphabetic(c: char) -> (r: bool)
    ensures
        r == alphabetic(c),
{
    c.is_alphabetic()
}

/// Relies on char::is_whitespace, to classify a character.
#[verifier::external_body]
fn char_is_whitespace(c: char) -> (r: bool)
    ensures
        r == whitespace(c),
{
    c.is_whitespace()
}

/// Relies on String::push: the string gains `c` at its end.
#[verifier::external_body]
fn push_char(s: &mut String, c: char)
    ensures
        final(s)@ == old(s)@.push(c),
{
    s.push(c)
}

pub open spec fn nothing_left_message() -> Seq<char> {
    "Nothing left to parse"@
}

pub open spec fn numeric_expected() -> Seq<char> {
    "Expecting numeric"@
}

pub open spec fn alphabetic_expected() -> Seq<char> {
    "Expecting alphabetic"@
}

pub open spec fn whitespace_expected() -> Seq<char> {
    "Expecting whitespace"@
}

/// The message of a failed match of the text `expected`.
pub open spec fn expecting(expected: Seq<char>) -> Seq<char> {
    "Expecting "@ + expected
}

/// The first character and the rest, or a failure on empty input.
pub open spec fn item_outcome(s: Seq<char>) -> Outcome<char> {
    if s.len() > 0 {
        Ok((s[0], s.drop_first()))
    } else {
        Err(nothing_left_message())
    }
}

/// The first character, where `pred` holds of it.
pub open spec fn class_outcome(s: Seq<char>, pred: spec_fn(char) -> bool, message: Seq<char>) -> Outcome<char> {
    filter_outcome(item_outcome(s), pred, message)
}

pub open spec fn class_model(pred: spec_fn(char) -> bool, message: Seq<char>) -> Model<char> {
    |s: Seq<char>| class_outcome(s, pred, message)
}

pub open spec fn is_alphabetic_char() -> spec_fn(char) -> bool {
    |c: char| alphabetic(c)
}

pub open spec fn is_whitespace_char() -> spec_fn(char) -> bool {
    |c: char| whitespace(c)
}

/// The length of the longest prefix of `s` whose characters all satisfy `pred`.
pub open spec fn run_len(s: Seq<char>, pred: spec_fn(char) -> bool) -> nat
    decreases s.len(),
{
    if s.len() > 0 && pred(s[0]) {
        1 + run_len(s.drop_first(), pred)
    } else {
        0
    }
}

/// The longest non-empty prefix of alphabetic characters, and the rest.
pub open spec fn word_outcome(s: Seq<char>) -> Outcome<Seq<char>> {
    let n = run_len(s, is_alphabetic_char());
    if n > 0 {
        Ok((s.take(n as int), s.skip(n as int)))
    } else {
        Err(nothing_matched_message())
    }
}

/// `s` without its leading whitespace.
pub open spec fn skip_white_space(s: Seq<char>) -> Seq<char> {
    s.skip(run_len(s, is_whitespace_char()) as int)
}

/// A word that is exactly `expected`; any other outcome is a failure that
/// names `expected`.
pub open spec fn keyword_outcome(s: Seq<char>, expected: Seq<char>) -> Outcome<()> {
    match word_outcome(s) {
        Ok((w, rest)) => if w == expected { Ok(((), rest)) } else { Err(expecting(expected)) },
        Err(_) => Err(expecting(expected)),
    }
}

/// The character `c` itself; any other outcome is a failure that names `c`.
pub open spec fn special_char_outcome(s: Seq<char>, c: char) -> Outcome<()> {
    if s.len() > 0 && s[0] == c {
        Ok(((), s.drop_first()))
    } else {
        Err(expecting(seq![c]))
    }
}

pub open spec fn word_model() -> Model<Seq<char>> {
    |s: Seq<char>| word_outcome(s)
}

pub open spec fn clear_white_space_model() -> Model<()> {
    |s: Seq<char>| Outcome::<()>::Ok(((), skip_white_space(s)))
}

pub open spec fn keyword_model(expected: Seq<char>) -> Model<()> {
    |s: Seq<char>| keyword_outcome(s, expected)
}

pub open spec fn special_char_model(c: char) -> Model<()> {
    |s: Seq<char>| special_char_outcome(s, c)
}

proof fn lemma_skip_is_suffix(s: Seq<char>, n: int)
    requires
        0 <= n <= s.len(),
    ensures
        is_suffix_of(s.skip(n), s),
{
    assert(s.skip(n) =~= s.subrange(s.len() - s.skip(n).len(), s.len() as int));
}

/// The parsers of words, whitespace, keywords and single characters each
/// consume only a prefix of their input.
pub proof fn lemma_primitives_keep_suffix(expected: Seq<char>, c: char)
    ensures
        keeps_suffix(word_model()),
        keeps_suffix(clear_white_space_model()),
        keeps_suffix(keyword_model(expected)),
        keeps_suffix(special_char_model(c)),
{
    assert forall|s: Seq<char>| (#[trigger] word_model()(s)) is Ok implies is_suffix_of(word_model()(s)->Ok_0.1, s) by {
        lemma_run_len_bound(s, is_alphabetic_char());
        lemma_skip_is_suffix(s, run_len(s, is_alphabetic_char()) as int);
    }
    assert forall|s: Seq<char>| (#[trigger] clear_white_space_model()(s)) is Ok implies is_suffix_of(clear_white_space_model()(s)->Ok_0.1, s) by {
        lemma_run_len_bound(s, is_whitespace_char());
        lemma_skip_is_suffix(s, run_len(s, is_whitespace_char()) as int);
    }
    assert forall|s: Seq<char>| (#[trigger] keyword_model(expected)(s)) is Ok implies is_suffix_of(keyword_model(expected)(s)->Ok_0.1, s) by {
        lemma_run_len_bound(s, is_alphabetic_char());
        lemma_skip_is_suffix(s, run_len(s, is_alphabetic_char()) as int);
    }
    assert forall|s: Seq<char>| (#[trigger] special_char_model(c)(s)) is Ok implies is_suffix_of(special_char_model(c)(s)->Ok_0.1, s) by {
        lemma_skip_is_suffix(s, 1);
    }
}

pub proof fn lemma_run_len_bound(s: Seq<char>, pred: spec_fn(char) -> bool)
    ensures
        run_len(s, pred) <= s.len(),
    decreases s.len(),
{
    if s.len() > 0 && pred(s[0]) {
        lemma_run_len_bound(s.drop_first(), pred);
    }
}

/// Repeating a one-character class collects the longest prefix of that class.
pub proof fn lemma_repeat_class(pred: spec_fn(char) -> bool, message: Seq<char>, s: Seq<char>)
    ensures
        run_len(s, pred) <= s.len(),
        repeat(class_model(pred, message), s) == (s.take(run_len(s, pred) as int), s.skip(run_len(s, pred) as int)),
    decreases s.len(),
{
    let m = class_model(pred, message);
    lemma_run_len_bound(s, pred);
    if s.len() > 0 && pred(s[0]) {
        let rest = s.drop_first();
        lemma_repeat_class(pred, message, rest);
        let n = run_len(rest, pred);
        assert(m(s) == Outcome::Ok((s[0], rest)));
        assert(seq![s[0]] + rest.take(n as int) =~= s.take(n as int + 1));
        assert(rest.skip(n as int) =~= s.skip(n as int + 1));
    } else {
        assert(m(s) is Err);
        assert(s.take(0) =~= Seq::<char>::empty());
        assert(s.skip(0) =~= s);
    }
}

proof fn lemma_class_keeps_suffix(pred: spec_fn(char) -> bool, message: Seq<char>)
    ensures
        keeps_suffix(class_model(pred, message)),
{
    assert forall|s: Seq<char>| (#[trigger] class_model(pred, message)(s)) is Ok implies is_suffix_of(
        class_model(pred, message)(s)->Ok_0.1,
        s,
    ) by {
        assert(s.drop_first() =~= s.subrange(1, s.len() as int));
    }
}

/// Takes the first character of `input`; fails where `input` is empty.
pub fn item(input: &String) -> (r: ParserOutput<char>)
    ensures
        r@ == item_outcome(input@),
{
    let s = input.as_str();
    let n = s.unicode_len();
    if n == 0 {
        return ParserOutput(Err(String::from_str("Nothing left to parse")));
    }
    let c = s.get_char(0);
    let rest = s.substring_char(1, n).to_owned();
    proof { assert(rest@ =~= input@.drop_first()); }
    ParserOutput(Ok((c, rest)))
}

fn classified_numeric(c: &char) -> (b: bool)
    ensures
        b == numeric(*c),
{
    char_is_numeric(*c)
}

fn classified_alphabetic(c: &char) -> (b: bool)
    ensures
        b == alphabetic(*c),
{
    char_is_alphabetic(*c)
}

fn classified_whitespace(c: &char) -> (b: bool)
    ensures
        b == whitespace(*c),
{
    char_is_whitespace(*c)
}

/// Takes the first character of `input` where it is numeric.
pub fn is_numeric(input: &String) -> (r: ParserOutput<char>)
    ensures
        r@ == class_outcome(input@, |c: char| numeric(c), numeric_expected()),
{
    item(input).only_if_message(classified_numeric, String::from_str("Expecting numeric"))
}

/// Takes the first character of `input` where it is alphabetic.
pub fn is_alphabetic(input: &String) -> (r: ParserOutput<char>)
    ensures
        r@ == class_outcome(input@, is_alphabetic_char(), alphabetic_expected()),
{
    item(input).only_if_message(classified_alphabetic, String::from_str("Expecting alphabetic"))
}

/// Takes the first character of `input` where it is whitespace.
pub fn white_space(input: &String) -> (r: ParserOutput<char>)
    ensures
        r@ == class_outcome(input@, is_whitespace_char(), whitespace_expected()),
{
    item(input).only_if_message(classified_whitespace, String::from_str("Expecting whitespace"))
}

fn chars_to_string(chars: &Vec<char>) -> (w: String)
    ensures
        w@ == chars.deep_view(),
{
    let mut w = String::new();
    let mut i: usize = 0;
    while i < chars.len()
        invariant
            i <= chars.len(),
            w@ == chars@.take(i as int),
        decreases chars.len() - i,
    {
        push_char(&mut w, chars[i]);
        proof { assert(w@ =~= chars@.take(i + 1)); }
        i = i + 1;
    }
    proof {
        assert(chars@.take(i as int) =~= chars@);
        assert(chars.deep_view() =~= chars@);
    }
    w
}

fn discard<A>(_value: &A) -> (r: ())
{
}

/// The longest non-empty run of alphabetic characters at the start of `input`.
pub fn word(input: &String) -> (r: ParserOutput<String>)
    ensures
        r@ == word_outcome(input@),
{
    let ghost m = class_model(is_alphabetic_char(), alphabetic_expected());
    proof { lemma_class_keeps_suffix(is_alphabetic_char(), alphabetic_expected()); }
    let letters = Parser::with_model(is_alphabetic, Ghost(m));
    let r = at_least_one(input, &letters).map(chars_to_string);
    proof { lemma_repeat_class(is_alphabetic_char(), alphabetic_expected(), input@); }
    r
}

/// Skips the whitespace at the start of `input`; always succeeds.
pub fn clear_white_space(input: &String) -> (r: ParserOutput<()>)
    ensures
        r@ == Outcome::<()>::Ok(((), skip_white_space(input@))),
{
    let ghost m = class_model(is_whitespace_char(), whitespace_expected());
    proof { lemma_class_keeps_suffix(is_whitespace_char(), whitespace_expected()); }
    let spaces = Parser::with_model(white_space, Ghost(m));
    let r = get_all(input, &spaces).map(discard);
    proof { lemma_repeat_class(is_whitespace_char(), whitespace_expected(), input@); }
    r
}

/// A word at the start of `input` that is exactly `text`.
pub fn keyword(input: &String, text: &str) -> (r: ParserOutput<()>)
    ensures
        r@ == keyword_outcome(input@, text@),
{
    let expected = text.to_owned();
    let is_expected = |w: &String| -> (b: bool)
        ensures
            b == (w@ == expected@),
        { w.eq(&expected) };
    let mut message = String::from_str("Expecting ");
    message.append(text);
    word(input).only_if(is_expected).set_error(message).map(discard)
}

/// The character `c` at the start of `input`.
pub fn special_char(input: &String, c: char) -> (r: ParserOutput<()>)
    ensures
        r@ == special_char_outcome(input@, c),
{
    let is_c = |i: &char| -> (b: bool)
        ensures
            b == (*i == c),
        { *i == c };
    let mut message = String::from_str("Expecting ");
    push_char(&mut message, c);
    proof { assert(message@ =~= expecting(seq![c])); }
    item(input).only_if(is_c).set_error(message).map(discard)
}

} // verus!
