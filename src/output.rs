use vstd::prelude::*;

verus! {

/// What a parse yields, seen mathematically: the value and the unconsumed
/// input, or an error message.
pub type Outcome<V> = Result<(V, Seq<char>), Seq<char>>;

/// The meaning of a parser: the outcome it gives on each input.
pub type Model<V> = spec_fn(Seq<char>) -> Outcome<V>;

/// `r` is a suffix of `s`: what is left once some prefix of `s` is consumed.
pub open spec fn is_suffix_of(r: Seq<char>, s: Seq<char>) -> bool {
    r.len() <= s.len() && r == s.subrange(s.len() - r.len(), s.len() as int)
}

/// Every success of `m` leaves a suffix of its input.
pub open spec fn keeps_suffix<V>(m: Model<V>) -> bool {
    forall|s: Seq<char>| (#[trigger] m(s)) is Ok ==> is_suffix_of(m(s)->Ok_0.1, s)
}

/// A success carries its value through `g`; a failure is left as it is.
pub open spec fn map_outcome<V, W>(o: Outcome<V>, g: spec_fn(V) -> W) -> Outcome<W> {
    match o {
        Ok((v, rest)) => Ok((g(v), rest)),
        Err(message) => Err(message),
    }
}

/// A success is handed on to `m`, which parses what it left; its value is dropped.
pub open spec fn then_outcome<V, W>(o: Outcome<V>, m: Model<W>) -> Outcome<W> {
    match o {
        Ok((_, rest)) => m(rest),
        Err(message) => Err(message),
    }
}

/// A success whose value `pred` rejects becomes a failure with `message`.
pub open spec fn filter_outcome<V>(o: Outcome<V>, pred: spec_fn(V) -> bool, message: Seq<char>) -> Outcome<V> {
    match o {
        Ok((v, _)) => if pred(v) { o } else { Err(message) },
        Err(_) => o,
    }
}

/// A failure gets `message` in place of its own; a success is kept.
pub open spec fn relabel_outcome<V>(o: Outcome<V>, message: Seq<char>) -> Outcome<V> {
    match o {
        Ok(_) => o,
        Err(_) => Err(message),
    }
}

pub open spec fn unmatched_message() -> Seq<char> {
    "If not matched"@
}

proof fn lemma_suffix_transitive(a: Seq<char>, b: Seq<char>, c: Seq<char>)
    requires
        is_suffix_of(a, b),
        is_suffix_of(b, c),
    ensures
        is_suffix_of(a, c),
{
    assert(a =~= c.subrange(c.len() - a.len(), c.len() as int));
}

/// A success of `then_outcome` leaves a suffix of the input, where both steps do.
pub proof fn lemma_then_keeps_suffix<V, W>(o: Outcome<V>, m: Model<W>, s: Seq<char>)
    requires
        o is Ok ==> is_suffix_of(o->Ok_0.1, s),
        keeps_suffix(m),
    ensures
        then_outcome(o, m) is Ok ==> is_suffix_of(then_outcome(o, m)->Ok_0.1, s),
{
    if let Ok((_, rest)) = o {
        if m(rest) is Ok {
            lemma_suffix_transitive(m(rest)->Ok_0.1, rest, s);
        }
    }
}

/// The result of applying a parser to an input: a value and the input left
/// over, or an error message.
#[derive(Debug)]
pub struct ParserOutput<A>(pub Result<(A, String), String>);

impl<A: DeepView> View for ParserOutput<A> {
    type V = Outcome<A::V>;

    open spec fn view(&self) -> Outcome<A::V> {
        match self.0 {
            Ok((a, rest)) => Ok((a.deep_view(), rest@)),
            Err(message) => Err(message@),
        }
    }
}

impl<A> ParserOutput<A> {
    /// Keeps a success only where `f` accepts its value; otherwise fails
    /// with `message`. A failure passes through.
    pub fn only_if_message<F: FnOnce(&A) -> bool>(self, f: F, message: String) -> (r: Self)
        requires
            self.0 is Ok ==> f.requires((&self.0->Ok_0.0,)),
        ensures
            match self.0 {
                Ok((v, rest)) => {
                    ||| f.ensures((&v,), true) && r.0 == Ok::<(A, String), String>((v, rest))
                    ||| f.ensures((&v,), false) && r.0 == Err::<(A, String), String>(message)
                },
                Err(e) => r.0 == Err::<(A, String), String>(e),
            },
    {
        match self.0 {
            Ok((value, rest)) => {
                if f(&value) {
                    ParserOutput(Ok((value, rest)))
                } else {
                    ParserOutput(Err(message))
                }
            },
            Err(e) => ParserOutput(Err(e)),
        }
    }

    /// `only_if_message` with a generic message.
    pub fn only_if<F: FnOnce(&A) -> bool>(self, f: F) -> (r: Self)
        requires
            self.0 is Ok ==> f.requires((&self.0->Ok_0.0,)),
        ensures
            match self.0 {
                Ok((v, rest)) => {
                    ||| f.ensures((&v,), true) && r.0 == Ok::<(A, String), String>((v, rest))
                    ||| f.ensures((&v,), false) && r.0 is Err && r.0->Err_0@ == unmatched_message()
                },
                Err(e) => r.0 == Err::<(A, String), String>(e),
            },
    {
        self.only_if_message(f, String::from_str("If not matched"))
    }

    /// Applies `f` to the value of a success; a failure passes through and
    /// `f` is not called.
    pub fn map<B, F: FnOnce(&A) -> B>(self, f: F) -> (r: ParserOutput<B>)
        requires
            self.0 is Ok ==> f.requires((&self.0->Ok_0.0,)),
        ensures
            match self.0 {
                Ok((v, rest)) => r.0 is Ok && f.ensures((&v,), r.0->Ok_0.0) && r.0->Ok_0.1 == rest,
                Err(e) => r.0 == Err::<(B, String), String>(e),
            },
    {
        match self.0 {
            Ok((v, rest)) => ParserOutput(Ok((f(&v), rest))),
            Err(e) => ParserOutput(Err(e)),
        }
    }

    /// The value and the rest of a success.
    pub fn unwrap(self) -> (r: (A, String))
        requires
            self.0 is Ok,
        ensures
            r == self.0->Ok_0,
    {
        self.0.unwrap()
    }

    /// Whether this is a success.
    pub fn is_valid(&self) -> (r: bool)
        ensures
            r == self.0 is Ok,
    {
        self.0.is_ok()
    }

    /// Replaces the message of a failure; a success is kept.
    pub fn set_error(self, message: String) -> (r: Self)
        ensures
            match self.0 {
                Ok(pair) => r.0 == Ok::<(A, String), String>(pair),
                Err(_) => r.0 == Err::<(A, String), String>(message),
            },
    {
        match self.0 {
            Ok(pair) => ParserOutput(Ok(pair)),
            Err(_) => ParserOutput(Err(message)),
        }
    }
}

} // verus!
