use vstd::prelude::*;
use crate::output::{Model, Outcome, ParserOutput, is_suffix_of, keeps_suffix, map_outcome};
use crate::combinators::{Parser, get_all, repeat};
use crate::primitives::{
    clear_white_space, clear_white_space_model, keyword, keyword_model, keyword_outcome,
    lemma_primitives_keep_suffix, skip_white_space, special_char, special_char_outcome, word,
    word_model, word_outcome,
};

verus! {

/// An action of a state: what it does, on entry, or on exit, and the
/// name of its target.
#[derive(Clone, Debug, PartialEq)]
pub enum Action {
    DoAction(String),
    Entry(String),
    Exit(String),
}

/// An `Action` seen mathematically.
pub enum ActionModel {
    DoAction(Seq<char>),
    Entry(Seq<char>),
    Exit(Seq<char>),
}

impl DeepView for Action {
    type V = ActionModel;

    open spec fn deep_view(&self) -> ActionModel {
        match self {
            Action::DoAction(name) => ActionModel::DoAction(name@),
            Action::Entry(name) => ActionModel::Entry(name@),
            Action::Exit(name) => ActionModel::Exit(name@),
        }
    }
}

/// A state block: its name and its actions, in order.
#[derive(Clone, Debug, PartialEq)]
pub struct State {
    pub name: String,
    pub actions: Vec<Action>,
}

/// A `State` seen mathematically.
pub struct StateModel {
    pub name: Seq<char>,
    pub actions: Seq<ActionModel>,
}

impl DeepView for State {
    type V = StateModel;

    open spec fn deep_view(&self) -> StateModel {
        StateModel { name: self.name@, actions: self.actions.deep_view() }
    }
}

/// Optional whitespace, the keyword `kw`, optional whitespace, and a word:
/// yields the word.
pub open spec fn keyword_action_outcome(s: Seq<char>, kw: Seq<char>) -> Outcome<Seq<char>> {
    match keyword_outcome(skip_white_space(s), kw) {
        Ok((_, rest)) => word_outcome(skip_white_space(rest)),
        Err(message) => Err(message),
    }
}

pub open spec fn do_action_outcome(s: Seq<char>) -> Outcome<ActionModel> {
    map_outcome(keyword_action_outcome(s, "do"@), |name: Seq<char>| ActionModel::DoAction(name))
}

pub open spec fn entry_action_outcome(s: Seq<char>) -> Outcome<ActionModel> {
    map_outcome(keyword_action_outcome(s, "entry"@), |name: Seq<char>| ActionModel::Entry(name))
}

pub open spec fn exit_action_outcome(s: Seq<char>) -> Outcome<ActionModel> {
    map_outcome(keyword_action_outcome(s, "exit"@), |name: Seq<char>| ActionModel::Exit(name))
}

/// The first of the `do`, `entry` and `exit` forms that matches; where none
/// does, the failure of the last.
pub open spec fn action_outcome(s: Seq<char>) -> Outcome<ActionModel> {
    if do_action_outcome(s) is Ok {
        do_action_outcome(s)
    } else if entry_action_outcome(s) is Ok {
        entry_action_outcome(s)
    } else {
        exit_action_outcome(s)
    }
}

pub open spec fn action_model() -> Model<ActionModel> {
    |s: Seq<char>| action_outcome(s)
}

/// `state`, a name, `{`, any number of actions, and `}`, with optional
/// whitespace between them; the first part that fails gives the failure.
pub open spec fn state_outcome(s: Seq<char>) -> Outcome<StateModel> {
    match keyword_outcome(s, "state"@) {
        Err(message) => Err(message),
        Ok((_, after_keyword)) => match word_outcome(skip_white_space(after_keyword)) {
            Err(message) => Err(message),
            Ok((name, after_name)) => match special_char_outcome(skip_white_space(after_name), '{') {
                Err(message) => Err(message),
                Ok((_, after_open)) => {
                    let (actions, after_actions) = repeat(action_model(), after_open);
                    match special_char_outcome(skip_white_space(after_actions), '}') {
                        Err(message) => Err(message),
                        Ok((_, rest)) => Ok((StateModel { name, actions }, rest)),
                    }
                },
            },
        },
    }
}

proof fn lemma_keyword_action_keeps_suffix(s: Seq<char>, kw: Seq<char>)
    ensures
        keyword_action_outcome(s, kw) is Ok ==> is_suffix_of(keyword_action_outcome(s, kw)->Ok_0.1, s),
{
    lemma_primitives_keep_suffix(kw, ' ');
    let s1 = skip_white_space(s);
    assert(clear_white_space_model()(s) == Outcome::<()>::Ok(((), s1)));
    if keyword_model(kw)(s1) is Ok {
        let s2 = keyword_model(kw)(s1)->Ok_0.1;
        let s3 = skip_white_space(s2);
        assert(clear_white_space_model()(s2) == Outcome::<()>::Ok(((), s3)));
        if word_model()(s3) is Ok {
            let s4 = word_model()(s3)->Ok_0.1;
            assert(s4 =~= s.subrange(s.len() - s4.len(), s.len() as int));
        }
    }
}

proof fn lemma_action_keeps_suffix()
    ensures
        keeps_suffix(action_model()),
{
    assert forall|s: Seq<char>| (#[trigger] action_model()(s)) is Ok implies is_suffix_of(action_model()(s)->Ok_0.1, s) by {
        lemma_keyword_action_keeps_suffix(s, "do"@);
        lemma_keyword_action_keeps_suffix(s, "entry"@);
        lemma_keyword_action_keeps_suffix(s, "exit"@);
    }
}

/// Optional whitespace, the keyword `kw`, optional whitespace, and a word:
/// yields the word.
pub fn keyword_action(input: &String, kw: &str) -> (r: ParserOutput<String>)
    ensures
        r@ == keyword_action_outcome(input@, kw@),
{
    proof { lemma_primitives_keep_suffix(kw@, ' '); }
    let expected = move |x: &String| -> (r: ParserOutput<()>)
        ensures
            r@ == keyword_outcome(x@, kw@),
        { keyword(x, kw) };
    let keyword_parser = Parser::with_model(expected, Ghost(keyword_model(kw@)));
    let spaces = Parser::with_model(clear_white_space, Ghost(clear_white_space_model()));
    let words = Parser::with_model(word, Ghost(word_model()));
    clear_white_space(input).and_then(&keyword_parser).and_then(&spaces).and_then(&words)
}

fn make_do_action(name: &String) -> (a: Action)
    ensures
        a.deep_view() == ActionModel::DoAction(name@),
{
    Action::DoAction(name.clone())
}

fn make_entry_action(name: &String) -> (a: Action)
    ensures
        a.deep_view() == ActionModel::Entry(name@),
{
    Action::Entry(name.clone())
}

fn make_exit_action(name: &String) -> (a: Action)
    ensures
        a.deep_view() == ActionModel::Exit(name@),
{
    Action::Exit(name.clone())
}

/// A `do` action.
pub fn do_action(input: &String) -> (r: ParserOutput<Action>)
    ensures
        r@ == do_action_outcome(input@),
{
    keyword_action(input, "do").map(make_do_action)
}

/// An `entry` action.
pub fn entry_action(input: &String) -> (r: ParserOutput<Action>)
    ensures
        r@ == entry_action_outcome(input@),
{
    keyword_action(input, "entry").map(make_entry_action)
}

/// An `exit` action.
pub fn exit_action(input: &String) -> (r: ParserOutput<Action>)
    ensures
        r@ == exit_action_outcome(input@),
{
    keyword_action(input, "exit").map(make_exit_action)
}

/// A `do`, `entry` or `exit` action, tried in that order.
pub fn action(input: &String) -> (r: ParserOutput<Action>)
    ensures
        r@ == action_outcome(input@),
{
    proof {
        assert forall|s: Seq<char>| #[trigger] do_action_outcome(s) is Ok implies is_suffix_of(do_action_outcome(s)->Ok_0.1, s) by {
            lemma_keyword_action_keeps_suffix(s, "do"@);
        }
        assert forall|s: Seq<char>| #[trigger] entry_action_outcome(s) is Ok implies is_suffix_of(entry_action_outcome(s)->Ok_0.1, s) by {
            lemma_keyword_action_keeps_suffix(s, "entry"@);
        }
        assert forall|s: Seq<char>| #[trigger] exit_action_outcome(s) is Ok implies is_suffix_of(exit_action_outcome(s)->Ok_0.1, s) by {
            lemma_keyword_action_keeps_suffix(s, "exit"@);
        }
    }
    let doing = Parser::with_model(do_action, Ghost(|s: Seq<char>| do_action_outcome(s)));
    let entering = Parser::with_model(entry_action, Ghost(|s: Seq<char>| entry_action_outcome(s)));
    let exiting = Parser::with_model(exit_action, Ghost(|s: Seq<char>| exit_action_outcome(s)));
    doing.or(entering).or(exiting).parse(input)
}

/// A state block: `state <name> { <action>* }`.
pub fn state(input: &String) -> (r: ParserOutput<State>)
    ensures
        r@ == state_outcome(input@),
{
    proof {
        lemma_primitives_keep_suffix("state"@, '{');
        lemma_action_keeps_suffix();
    }
    let spaces = Parser::with_model(clear_white_space, Ghost(clear_white_space_model()));
    let words = Parser::with_model(word, Ghost(word_model()));
    let named = keyword(input, "state").and_then(&spaces).and_then(&words);
    let (name, after_name) = match named.0 {
        Ok(pair) => pair,
        Err(message) => return ParserOutput(Err(message)),
    };
    let opened = clear_white_space(&after_name);
    let after_open = match special_char(&opened.unwrap().1, '{').0 {
        Ok((_, rest)) => rest,
        Err(message) => return ParserOutput(Err(message)),
    };
    let actions_parser = Parser::with_model(action, Ghost(action_model()));
    let (actions, after_actions) = get_all(&after_open, &actions_parser).unwrap();
    let closing = clear_white_space(&after_actions);
    match special_char(&closing.unwrap().1, '}').0 {
        Ok((_, rest)) => ParserOutput(Ok((State { name, actions }, rest))),
        Err(message) => ParserOutput(Err(message)),
    }
}

} // verus!
