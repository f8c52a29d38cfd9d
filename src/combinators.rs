use vstd::prelude::*;
use crate::output::{
    Model, Outcome, ParserOutput, filter_outcome, is_suffix_of, keeps_suffix,
    lemma_then_keeps_suffix, map_outcome, then_outcome,
};

verus! {

/// Every result that `f` can return on an input is the one that `m` gives.
pub open spec fn computes<A: DeepView, F: Fn(&String) -> ParserOutput<A>>(f: F, m: Model<A::V>) -> bool {
    forall|s: &String, r: ParserOutput<A>| #[trigger] f.ensures((s,), r) ==> r@ == m(s@)
}

/// `f` accepts every argument.
pub open spec fn total<T, R, F: Fn(&T) -> R>(f: F) -> bool {
    forall|x: &T| #[trigger] f.requires((x,))
}

/// Every result of `f` has the view that `g` gives for the argument's view.
pub open spec fn maps_by<A: DeepView, B: DeepView, F: Fn(&A) -> B>(f: F, g: spec_fn(A::V) -> B::V) -> bool {
    forall|a: &A, b: B| #[trigger] f.ensures((a,), b) ==> b.deep_view() == g(a.deep_view())
}

/// Every answer of `f` is the one that `pred` gives for the argument's view.
pub open spec fn decides_by<A: DeepView, F: Fn(&A) -> bool>(f: F, pred: spec_fn(A::V) -> bool) -> bool {
    forall|a: &A, b: bool| #[trigger] f.ensures((a,), b) ==> b == pred(a.deep_view())
}

/// The view-level function that a deterministic `f` computes.
pub open spec fn mapping_of<A: DeepView, B: DeepView, F: Fn(&A) -> B>(f: F) -> spec_fn(A::V) -> B::V {
    choose|g: spec_fn(A::V) -> B::V| maps_by(f, g)
}

/// The view-level predicate that a deterministic `f` decides.
pub open spec fn predicate_of<A: DeepView, F: Fn(&A) -> bool>(f: F) -> spec_fn(A::V) -> bool {
    choose|pred: spec_fn(A::V) -> bool| decides_by(f, pred)
}

/// The first alternative where it succeeds, else the second on the same input.
pub open spec fn or_model<V>(m1: Model<V>, m2: Model<V>) -> Model<V> {
    |s: Seq<char>| if m1(s) is Ok { m1(s) } else { m2(s) }
}

pub open spec fn map_model<V, W>(m: Model<V>, g: spec_fn(V) -> W) -> Model<W> {
    |s: Seq<char>| map_outcome(m(s), g)
}

pub open spec fn then_model<V, W>(m1: Model<V>, m2: Model<W>) -> Model<W> {
    |s: Seq<char>| then_outcome(m1(s), m2)
}

pub open spec fn filter_model<V>(m: Model<V>, pred: spec_fn(V) -> bool, message: Seq<char>) -> Model<V> {
    |s: Seq<char>| filter_outcome(m(s), pred, message)
}

/// Applies `m` again and again from `s`, collecting the values, until it
/// fails or succeeds without consuming anything; the attempt that ends the
/// run is dropped. Yields the values and what the last accepted step left.
pub open spec fn repeat<V>(m: Model<V>, s: Seq<char>) -> (Seq<V>, Seq<char>)
    decreases s.len(),
{
    match m(s) {
        Ok((v, rest)) => if rest.len() < s.len() {
            let (vs, last) = repeat(m, rest);
            (seq![v] + vs, last)
        } else {
            (Seq::empty(), s)
        },
        Err(_) => (Seq::empty(), s),
    }
}

pub open spec fn all_model<V>(m: Model<V>) -> Model<Seq<V>> {
    |s: Seq<char>| Ok(repeat(m, s))
}

pub open spec fn nothing_matched_message() -> Seq<char> {
    "Expecting something"@
}

/// The repetition, where it matched at least once.
pub open spec fn at_least_one_outcome<V>(m: Model<V>, s: Seq<char>) -> Outcome<Seq<V>> {
    if repeat(m, s).0.len() > 0 {
        Ok(repeat(m, s))
    } else {
        Err(nothing_matched_message())
    }
}

/// Where `m` keeps suffixes, the repetition leaves a suffix, and never
/// collects more values than it consumed characters.
pub proof fn lemma_repeat_consumes<V>(m: Model<V>, s: Seq<char>)
    requires
        keeps_suffix(m),
    ensures
        is_suffix_of(repeat(m, s).1, s),
        repeat(m, s).0.len() + repeat(m, s).1.len() <= s.len(),
    decreases s.len(),
{
    if let Ok((v, rest)) = m(s) {
        if rest.len() < s.len() {
            lemma_repeat_consumes(m, rest);
            let last = repeat(m, rest).1;
            assert(last =~= s.subrange(s.len() - last.len(), s.len() as int));
        } else {
            assert(s =~= s.subrange(0, s.len() as int));
        }
    } else {
        assert(s =~= s.subrange(0, s.len() as int));
    }
}

/// Where the first alternative fails, `or` gives exactly what the second
/// gives on the same, untouched input.
pub proof fn lemma_or_falls_through<V>(m1: Model<V>, m2: Model<V>, x: Seq<char>)
    requires
        m1(x) is Err,
    ensures
        or_model(m1, m2)(x) == m2(x),
{
}

/// Where a parser fails, mapping any function over it fails with the same
/// message.
pub proof fn lemma_map_keeps_failure<V, W>(m: Model<V>, g: spec_fn(V) -> W, x: Seq<char>)
    requires
        m(x) is Err,
    ensures
        map_model(m, g)(x) == Outcome::<W>::Err(m(x)->Err_0),
{
}

/// One or more repetitions fail exactly where the first attempt fails, for
/// a parser whose successes on `x` consume something.
pub proof fn lemma_at_least_one_fails_iff_first_fails<V>(m: Model<V>, x: Seq<char>)
    requires
        m(x) is Ok ==> m(x)->Ok_0.1.len() < x.len(),
    ensures
        at_least_one_outcome(m, x) is Err <==> m(x) is Err,
{
}

/// A parser: a function from an input string to a `ParserOutput`, which is
/// pure, total and consumes only a prefix of its input. Its meaning is
/// `model()`.
#[verifier::reject_recursive_types(A)]
pub struct Parser<A: DeepView, F: Fn(&String) -> ParserOutput<A>> {
    run: F,
    model: Ghost<Model<A::V>>,
}

impl<A: DeepView, F: Fn(&String) -> ParserOutput<A>> Parser<A, F> {
    #[verifier::type_invariant]
    spec fn inv(self) -> bool {
        &&& total(self.run)
        &&& computes(self.run, self.model@)
        &&& keeps_suffix(self.model@)
    }

    /// The outcome of this parser on each input.
    pub closed spec fn model(&self) -> Model<A::V> {
        self.model@
    }

    /// A parser that runs `f`, which must be total, give one outcome for
    /// each input and consume only a prefix of it.
    pub fn new(f: F) -> (p: Self)
        requires
            total(f),
            exists|m: Model<A::V>| computes(f, m) && keeps_suffix(m),
        ensures
            computes(f, p.model()),
            keeps_suffix(p.model()),
    {
        let ghost m = choose|m: Model<A::V>| computes(f, m) && keeps_suffix(m);
        Parser { run: f, model: Ghost(m) }
    }

    /// A parser that runs `f`, whose outcome on each input is the one that
    /// `m` gives.
    pub fn with_model(f: F, m: Ghost<Model<A::V>>) -> (p: Self)
        requires
            total(f),
            computes(f, m@),
            keeps_suffix(m@),
        ensures
            p.model() == m@,
            keeps_suffix(p.model()),
    {
        Parser { run: f, model: m }
    }

    /// Applies the parser to `input`. It always returns, with a success
    /// that leaves a suffix of `input`, or a failure.
    pub fn parse(&self, input: &str) -> (r: ParserOutput<A>)
        ensures
            r@ == self.model()(input@),
            r@ is Ok ==> is_suffix_of(r@->Ok_0.1, input@),
    {
        proof { use_type_invariant(self); }
        let s = input.to_owned();
        (self.run)(&s)
    }

    /// Tries this parser, and where it fails, `p2` on the same input.
    pub fn or<G: Fn(&String) -> ParserOutput<A>>(self, p2: Parser<A, G>) -> (r: Parser<A, impl Fn(&String) -> ParserOutput<A>>)
        ensures
            r.model() == or_model(self.model(), p2.model()),
    {
        let ghost m = or_model(self.model(), p2.model());
        proof { use_type_invariant(&self); use_type_invariant(&p2); }
        let f = move |input: &String| -> (r: ParserOutput<A>)
            ensures
                r@ == m(input@),
            {
                let result = self.parse(input);
                if result.is_valid() {
                    return result;
                }
                p2.parse(input)
            };
        Parser { run: f, model: Ghost(m) }
    }

    /// Applies `f` to the value of each success.
    pub fn map<B: DeepView, G: Fn(&A) -> B>(self, f: G) -> (r: Parser<B, impl Fn(&String) -> ParserOutput<B>>)
        requires
            total(f),
            exists|g: spec_fn(A::V) -> B::V| maps_by(f, g),
        ensures
            r.model() == map_model(self.model(), mapping_of(f)),
    {
        let ghost g = mapping_of(f);
        let ghost m = map_model(self.model(), g);
        proof { use_type_invariant(&self); }
        let run = move |input: &String| -> (r: ParserOutput<B>)
            ensures
                r@ == m(input@),
            {
                self.parse(input).map(&f)
            };
        Parser { run, model: Ghost(m) }
    }

    /// Keeps a success only where `f` accepts its value; otherwise fails
    /// with a generic message. A failure passes through.
    pub fn only_if<G: Fn(&A) -> bool>(self, f: G) -> (r: Parser<A, impl Fn(&String) -> ParserOutput<A>>)
        requires
            total(f),
            exists|pred: spec_fn(A::V) -> bool| decides_by(f, pred),
        ensures
            r.model() == filter_model(self.model(), predicate_of(f), crate::output::unmatched_message()),
    {
        let ghost pred = predicate_of(f);
        let ghost m = filter_model(self.model(), pred, crate::output::unmatched_message());
        proof { use_type_invariant(&self); }
        let run = move |input: &String| -> (r: ParserOutput<A>)
            ensures
                r@ == m(input@),
            {
                self.parse(input).only_if(&f)
            };
        Parser { run, model: Ghost(m) }
    }

    /// Runs this parser, then `p2` on what it left; yields what `p2` yields.
    pub fn and_then<B: DeepView, G: Fn(&String) -> ParserOutput<B>>(self, p2: Parser<B, G>) -> (r: Parser<B, impl Fn(&String) -> ParserOutput<B>>)
        ensures
            r.model() == then_model(self.model(), p2.model()),
    {
        let ghost m = then_model(self.model(), p2.model());
        proof { use_type_invariant(&self); use_type_invariant(&p2); }
        let run = move |input: &String| -> (r: ParserOutput<B>)
            ensures
                r@ == m(input@),
            {
                self.parse(input).and_then(&p2)
            };
        proof {
            assert forall|s: Seq<char>| (#[trigger] m(s)) is Ok implies is_suffix_of(m(s)->Ok_0.1, s) by {
                lemma_then_keeps_suffix(self.model()(s), p2.model(), s);
            }
        }
        Parser { run, model: Ghost(m) }
    }

    /// Zero or more repetitions of this parser; always succeeds.
    pub fn all(self) -> (r: Parser<Vec<A>, impl Fn(&String) -> ParserOutput<Vec<A>>>)
        ensures
            r.model() == all_model(self.model()),
    {
        let ghost m = all_model(self.model());
        proof { use_type_invariant(&self); }
        let run = move |s: &String| -> (r: ParserOutput<Vec<A>>)
            ensures
                r@ == m(s@),
            {
                get_all(s, &self)
            };
        proof {
            assert forall|s: Seq<char>| (#[trigger] m(s)) is Ok implies is_suffix_of(m(s)->Ok_0.1, s) by {
                lemma_repeat_consumes(self.model(), s);
            }
        }
        Parser { run, model: Ghost(m) }
    }
}

impl<A: DeepView> ParserOutput<A> {
    /// Where this is a success, applies `parser` to what it left and yields
    /// that result; a failure passes through.
    pub fn and_then<B: DeepView, G: Fn(&String) -> ParserOutput<B>>(self, parser: &Parser<B, G>) -> (r: ParserOutput<B>)
        ensures
            r@ == then_outcome(self@, parser.model()),
    {
        match self.0 {
            Ok((_, rest)) => parser.parse(&rest),
            Err(e) => ParserOutput(Err(e)),
        }
    }
}

/// Applies `parser` again and again, from `input` on, and collects the
/// values, until it fails or succeeds without consuming anything. Always
/// succeeds, with the input that the last accepted step left.
pub fn get_all<A: DeepView, F: Fn(&String) -> ParserOutput<A>>(input: &String, parser: &Parser<A, F>) -> (r: ParserOutput<Vec<A>>)
    ensures
        r@ is Ok,
        r@->Ok_0 == repeat(parser.model(), input@),
        r@->Ok_0.0.len() + r@->Ok_0.1.len() <= input@.len(),
{
    proof { use_type_invariant(parser); }
    let ghost m = parser.model();
    let mut values: Vec<A> = Vec::new();
    let mut rest = input.clone();
    loop
        invariant
            keeps_suffix(m),
            m == parser.model(),
            repeat(m, input@) == (values.deep_view() + repeat(m, rest@).0, repeat(m, rest@).1),
            values.len() + rest@.len() <= input@.len(),
        ensures
            repeat(m, rest@).0.len() == 0,
            repeat(m, rest@).1 == rest@,
        decreases rest@.len(),
    {
        let before = rest.as_str().unicode_len();
        match parser.parse(&rest).0 {
            Ok((value, s)) => {
                let after = s.as_str().unicode_len();
                if after < before {
                    proof {
                        assert(repeat(m, rest@) == (seq![value.deep_view()] + repeat(m, s@).0, repeat(m, s@).1));
                    }
                    let ghost old_values = values.deep_view();
                    values.push(value);
                    proof {
                        assert(values.deep_view() =~= old_values.push(value.deep_view()));
                        assert(old_values + (seq![value.deep_view()] + repeat(m, s@).0) =~= values.deep_view() + repeat(m, s@).0);
                    }
                    rest = s;
                } else {
                    break;
                }
            },
            Err(_) => break,
        }
    }
    proof {
        lemma_repeat_consumes(m, input@);
        assert(values.deep_view() + repeat(m, rest@).0 =~= values.deep_view());
    }
    ParserOutput(Ok((values, rest)))
}

/// One or more repetitions of `parser`; fails where it matches zero times.
pub fn at_least_one<A: DeepView, F: Fn(&String) -> ParserOutput<A>>(input: &String, parser: &Parser<A, F>) -> (r: ParserOutput<Vec<A>>)
    ensures
        r@ == at_least_one_outcome(parser.model(), input@),
{
    get_all(input, parser).only_if_message(is_nonempty, String::from_str("Expecting something"))
}

fn is_nonempty<A>(v: &Vec<A>) -> (b: bool)
    ensures
        b == (v.len() > 0),
{
    v.len() > 0
}

} // verus!
