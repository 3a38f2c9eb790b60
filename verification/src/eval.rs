//! The calculator behind `=`: a stack of scopes for each user, and what each line does to it.

use crate::scope::{distinct, Scope};
use crate::text::{
    decimal, join, join_from, push_decimal, same_text, split_words, texts, to_chars,
    to_text, trim, trim_bounds, words,
};
use vstd::prelude::*;
use vstd::string::StringExecFns;

verus! {

/// The bindings of one scope.
pub type Bindings = Map<Seq<char>, u64>;

/// The calculator of one user: a stack of scopes that is never empty. The last scope is the
/// current one.
#[derive(Debug)]
pub struct EvalUser {
    scopes: Vec<Scope>,
}

impl View for EvalUser {
    type V = Seq<Bindings>;

    closed spec fn view(&self) -> Seq<Bindings> {
        Seq::new(self.scopes.len() as nat, |i: int| self.scopes[i]@)
    }
}

/// The number that `name` stands for in a stack of scopes: that of the innermost scope that
/// binds it.
pub open spec fn visible(scopes: Seq<Bindings>, name: Seq<char>) -> Option<u64>
    decreases scopes.len(),
{
    if scopes.len() == 0 {
        None
    } else if scopes.last().dom().contains(name) {
        Some(scopes.last()[name])
    } else {
        visible(scopes.drop_last(), name)
    }
}

/// The name that holds the last result.
pub open spec fn answer_name() -> Seq<char> {
    seq!['_']
}

/// What the calculator asks of its caller after it has read a line.
#[derive(Debug, Clone, PartialEq, Eq)]
pub enum EvalStep {
    /// The line is dealt with: this is the reply.
    Reply(String),
    /// Evaluate `expr` with the variables that are visible, and come back with the outcome;
    /// the result is to be bound to `bind`.
    Evaluate { expr: String, bind: String },
}

/// What an [`EvalStep`] holds.
pub enum EvalStepText {
    Reply(Seq<char>),
    Evaluate { expr: Seq<char>, bind: Seq<char> },
}

impl View for EvalStep {
    type V = EvalStepText;

    open spec fn view(&self) -> EvalStepText {
        match self {
            EvalStep::Reply(t) => EvalStepText::Reply(t@),
            EvalStep::Evaluate { expr, bind } => EvalStepText::Evaluate {
                expr: expr@,
                bind: bind@,
            },
        }
    }
}

/// How the evaluation of an expression went.
#[derive(Debug, Clone, PartialEq, Eq)]
pub enum EvalOutcome {
    /// The text is no expression.
    ParseError,
    /// The expression has no value: a variable in it is not visible, say.
    EvalError,
    /// The value, as the bit pattern of its double, and as the text that shows it.
    Value { bits: u64, text: String },
}

/// What an [`EvalOutcome`] holds.
pub enum EvalOutcomeText {
    ParseError,
    EvalError,
    Value { bits: u64, text: Seq<char> },
}

impl View for EvalOutcome {
    type V = EvalOutcomeText;

    open spec fn view(&self) -> EvalOutcomeText {
        match self {
            EvalOutcome::ParseError => EvalOutcomeText::ParseError,
            EvalOutcome::EvalError => EvalOutcomeText::EvalError,
            EvalOutcome::Value { bits, text } => EvalOutcomeText::Value {
                bits: *bits,
                text: text@,
            },
        }
    }
}

/// The word that binds a variable.
pub open spec fn let_word() -> Seq<char> {
    seq!['l', 'e', 't']
}

/// The word that empties the calculator.
pub open spec fn clear_word() -> Seq<char> {
    seq!['c', 'l', 'e', 'a', 'r']
}

/// The word that opens a scope.
pub open spec fn push_word() -> Seq<char> {
    seq!['p', 'u', 's', 'h']
}

/// The word that closes the current scope.
pub open spec fn pop_word() -> Seq<char> {
    seq!['p', 'o', 'p']
}

/// The string literals of the keywords are the keywords.
proof fn lemma_keywords()
    ensures
        "let"@ == let_word(),
        "clear"@ == clear_word(),
        "push"@ == push_word(),
        "pop"@ == pop_word(),
        "="@ == seq!['='],
        " "@ == seq![' '],
        "_"@ == answer_name(),
{
    reveal_strlit("let");
    reveal_strlit("clear");
    reveal_strlit("push");
    reveal_strlit("pop");
    reveal_strlit("=");
    reveal_strlit(" ");
    reveal_strlit("_");
    assert("let"@ =~= let_word());
    assert("clear"@ =~= clear_word());
    assert("push"@ =~= push_word());
    assert("pop"@ =~= pop_word());
    assert("="@ =~= seq!['=']);
    assert(" "@ =~= seq![' ']);
    assert("_"@ =~= answer_name());
}

/// The keywords differ from each other.
proof fn lemma_keywords_differ()
    ensures
        let_word() != clear_word(),
        let_word() != push_word(),
        let_word() != pop_word(),
        clear_word() != push_word(),
        clear_word() != pop_word(),
        push_word() != pop_word(),
{
    assert(let_word().len() == 3);
    assert(clear_word().len() == 5);
    assert(push_word().len() == 4);
    assert(pop_word().len() == 3);
    assert(let_word()[0] == 'l');
    assert(pop_word()[0] == 'p');
}

/// The reply to a `let` that is not well formed.
pub open spec fn let_usage() -> Seq<char> {
    "incorrect 'let' syntax. Should be: let x = ..."@
}

/// The reply to `clear`.
pub open spec fn cleared_reply() -> Seq<char> {
    "Cleared all variables"@
}

/// The reply to a text that is no expression.
pub open spec fn parse_error_reply() -> Seq<char> {
    "parse error"@
}

/// The reply to an expression that has no value.
pub open spec fn eval_error_reply() -> Seq<char> {
    "evaluation error"@
}

/// The reply to `push`: it names the depth that the stack has now.
pub open spec fn entered_reply(depth: nat) -> Seq<char> {
    "Entered scope["@ + decimal(depth) + "]"@
}

/// The reply to `pop`: it names the depth that is left.
pub open spec fn exited_reply(depth: nat) -> Seq<char> {
    "Exited scope["@ + decimal(depth) + "]"@
}

/// The scopes after `pop`: the last one is gone, and where none would be left there is one
/// empty scope.
pub open spec fn popped(scopes: Seq<Bindings>) -> Seq<Bindings> {
    if scopes.len() <= 1 {
        seq![Map::empty()]
    } else {
        scopes.drop_last()
    }
}

/// The scopes after the line `line` was read.
pub open spec fn scopes_after_line(scopes: Seq<Bindings>, line: Seq<char>) -> Seq<Bindings> {
    let w = words(line);
    if w.len() == 0 || w[0] == let_word() {
        scopes
    } else if w[0] == clear_word() {
        seq![Map::empty()]
    } else if w[0] == push_word() {
        scopes.push(Map::empty())
    } else if w[0] == pop_word() {
        popped(scopes)
    } else {
        scopes
    }
}

/// What the calculator asks for after the line `line` was read. A blank line has an empty
/// reply. The first word decides, in this order: `let NAME = EXPR` asks for the value of
/// `EXPR`, its words joined by single spaces, to bind `NAME`, and replies the usage where
/// fewer than four words are there or the third is not `=`; `clear`, `push` and `pop` change
/// the scopes and reply; any other line is an expression, taken without the white space
/// around it, whose value goes to `_`.
pub open spec fn step_for_line(scopes: Seq<Bindings>, line: Seq<char>) -> EvalStepText {
    let w = words(line);
    if w.len() == 0 {
        EvalStepText::Reply(Seq::empty())
    } else if w[0] == let_word() {
        if w.len() < 4 || w[2] != seq!['='] {
            EvalStepText::Reply(let_usage())
        } else {
            EvalStepText::Evaluate {
                expr: join(w.subrange(3, w.len() as int), seq![' ']),
                bind: w[1],
            }
        }
    } else if w[0] == clear_word() {
        EvalStepText::Reply(cleared_reply())
    } else if w[0] == push_word() {
        EvalStepText::Reply(entered_reply(scopes.len() + 1))
    } else if w[0] == pop_word() {
        EvalStepText::Reply(exited_reply(popped(scopes).len()))
    } else {
        EvalStepText::Evaluate { expr: trim(line), bind: answer_name() }
    }
}

/// The scopes after an evaluation: a value is bound, in the current scope, to `_` and to
/// `bind`; an error changes nothing.
pub open spec fn scopes_after_outcome(
    scopes: Seq<Bindings>,
    bind: Seq<char>,
    outcome: EvalOutcomeText,
) -> Seq<Bindings> {
    match outcome {
        EvalOutcomeText::Value { bits, text } => scopes.update(
            scopes.len() - 1,
            scopes.last().insert(answer_name(), bits).insert(bind, bits),
        ),
        _ => scopes,
    }
}

/// The reply after an evaluation: the value's text, or the message of the error.
pub open spec fn reply_for_outcome(outcome: EvalOutcomeText) -> Seq<char> {
    match outcome {
        EvalOutcomeText::ParseError => parse_error_reply(),
        EvalOutcomeText::EvalError => eval_error_reply(),
        EvalOutcomeText::Value { bits, text } => text,
    }
}

impl EvalUser {
    /// The calculator is well formed: it has a scope, and each scope is well formed. Every
    /// calculator that this module hands out is.
    pub closed spec fn wf(&self) -> bool {
        &&& self.scopes.len() >= 1
        &&& forall|i: int| 0 <= i < self.scopes.len() ==> (#[trigger] self.scopes[i]).wf()
    }

    /// A well-formed calculator has a scope.
    pub proof fn lemma_depth(&self)
        requires
            self.wf(),
        ensures
            self@.len() >= 1,
    {
    }

    /// The calculator of a user who has not used it yet: one empty scope.
    pub fn new() -> (r: Self)
        ensures
            r.wf(),
            r@ == seq![Map::<Seq<char>, u64>::empty()],
    {
        let mut scopes: Vec<Scope> = Vec::new();
        scopes.push(Scope::new());
        let r = EvalUser { scopes };
        assert(r@ =~= seq![Map::<Seq<char>, u64>::empty()]);
        r
    }

    /// The number of scopes.
    pub fn depth(&self) -> (n: usize)
        ensures
            n == self@.len(),
    {
        self.scopes.len()
    }

    /// The scope at place `i`, counted from the outermost; `None` from `depth()` on.
    pub fn scope(&self, i: usize) -> (r: Option<&Scope>)
        requires
            self.wf(),
        ensures
            match r {
                Some(s) => i < self@.len() && s@ == self@[i as int] && s.wf(),
                None => i >= self@.len(),
            },
    {
        if i < self.scopes.len() {
            Some(&self.scopes[i])
        } else {
            None
        }
    }

    /// The number that `name` stands for: the scopes are searched from the current one
    /// outwards.
    pub fn lookup(&self, name: &str) -> (r: Option<u64>)
        requires
            self.wf(),
        ensures
            r == visible(self@, name@),
    {
        let mut i: usize = self.scopes.len();
        assert(self@.subrange(0, self@.len() as int) =~= self@);
        while i > 0
            invariant
                self.wf(),
                i <= self.scopes.len(),
                visible(self@, name@) == visible(self@.subrange(0, i as int), name@),
            decreases i,
        {
            proof {
                let s = self@.subrange(0, i as int);
                assert(s.last() == self.scopes[i - 1]@);
                assert(s.drop_last() =~= self@.subrange(0, i - 1));
            }
            match self.scopes[i - 1].get(name) {
                Some(v) => {
                    return Some(v);
                },
                None => {},
            }
            i -= 1;
        }
        None
    }
}

impl EvalUser {
    /// Reads one line; see [`step_for_line`] for what is asked and [`scopes_after_line`] for
    /// what becomes of the scopes.
    pub fn begin(&mut self, line: &str) -> (r: EvalStep)
        requires
            old(self).wf(),
        ensures
            final(self).wf(),
            final(self)@ == scopes_after_line(old(self)@, line@),
            r@ == step_for_line(old(self)@, line@),
    {
        let w = split_words(line);
        proof {
            lemma_keywords();
        }
        if w.len() == 0 {
            return EvalStep::Reply(String::new());
        }
        assert(texts(w@)[0] == w@[0]@);
        if same_text(w[0].as_str(), "let") {
            if w.len() < 4 {
                return EvalStep::Reply(
                    String::from_str("incorrect 'let' syntax. Should be: let x = ..."),
                );
            }
            assert(texts(w@)[2] == w@[2]@);
            assert(texts(w@)[1] == w@[1]@);
            if !same_text(w[2].as_str(), "=") {
                return EvalStep::Reply(
                    String::from_str("incorrect 'let' syntax. Should be: let x = ..."),
                );
            }
            EvalStep::Evaluate { expr: join_from(&w, 3, " "), bind: w[1].clone() }
        } else if same_text(w[0].as_str(), "clear") {
            let mut scopes: Vec<Scope> = Vec::new();
            scopes.push(Scope::new());
            self.scopes = scopes;
            assert(self@ =~= seq![Map::<Seq<char>, u64>::empty()]);
            EvalStep::Reply(String::from_str("Cleared all variables"))
        } else if same_text(w[0].as_str(), "push") {
            self.scopes.push(Scope::new());
            assert(self@ =~= old(self)@.push(Map::<Seq<char>, u64>::empty()));
            let mut reply = String::from_str("Entered scope[");
            push_decimal(&mut reply, self.scopes.len() as u64);
            reply.append("]");
            EvalStep::Reply(reply)
        } else if same_text(w[0].as_str(), "pop") {
            self.scopes.pop();
            if self.scopes.len() == 0 {
                self.scopes.push(Scope::new());
            }
            assert(self@ =~= popped(old(self)@));
            let mut reply = String::from_str("Exited scope[");
            push_decimal(&mut reply, self.scopes.len() as u64);
            reply.append("]");
            EvalStep::Reply(reply)
        } else {
            let v = to_chars(line);
            let (a, b) = trim_bounds(&v);
            let bind = String::from_str("_");
            EvalStep::Evaluate { expr: to_text(&v, a, b), bind }
        }
    }

    /// Takes in the outcome of the evaluation that [`EvalUser::begin`] asked for, with the
    /// name it gave, and replies; see [`scopes_after_outcome`] and [`reply_for_outcome`].
    pub fn finish(&mut self, bind: &str, outcome: EvalOutcome) -> (r: String)
        requires
            old(self).wf(),
        ensures
            final(self).wf(),
            final(self)@ == scopes_after_outcome(old(self)@, bind@, outcome@),
            r@ == reply_for_outcome(outcome@),
    {
        match outcome {
            EvalOutcome::ParseError => String::from_str("parse error"),
            EvalOutcome::EvalError => String::from_str("evaluation error"),
            EvalOutcome::Value { bits, text } => {
                let top = self.scopes.pop();
                match top {
                    Some(mut scope) => {
                        proof {
                            lemma_keywords();
                        }
                        scope.set("_", bits);
                        scope.set(bind, bits);
                        self.scopes.push(scope);
                        assert(self@ =~= scopes_after_outcome(old(self)@, bind@, outcome@));
                    },
                    None => {},
                }
                text
            },
        }
    }
}

/// The stack of scopes is never empty: no line and no outcome leaves a calculator that had a
/// scope without one.
pub proof fn lemma_never_without_scope(
    scopes: Seq<Bindings>,
    line: Seq<char>,
    bind: Seq<char>,
    outcome: EvalOutcomeText,
)
    requires
        scopes.len() >= 1,
    ensures
        scopes_after_line(scopes, line).len() >= 1,
        scopes_after_outcome(scopes, bind, outcome).len() >= 1,
{
}

/// `clear` leaves exactly one scope, and it is empty, however many there were; `pop` on a
/// calculator with one scope does the same.
pub proof fn lemma_clear_and_last_pop(scopes: Seq<Bindings>, line: Seq<char>)
    requires
        words(line).len() > 0,
        words(line)[0] == clear_word() || (words(line)[0] == pop_word() && scopes.len() == 1),
    ensures
        scopes_after_line(scopes, line) == seq![Map::<Seq<char>, u64>::empty()],
{
    lemma_keywords_differ();
}

/// `push` then `pop` leaves the scopes as they were, and what was bound in between is no
/// longer visible unless an outer scope binds it too.
pub proof fn lemma_push_pop(scopes: Seq<Bindings>, push: Seq<char>, pop: Seq<char>)
    requires
        scopes.len() >= 1,
        words(push).len() > 0,
        words(push)[0] == push_word(),
        words(pop).len() > 0,
        words(pop)[0] == pop_word(),
    ensures
        scopes_after_line(scopes_after_line(scopes, push), pop) == scopes,
        step_for_line(scopes, push) == EvalStepText::Reply(entered_reply(scopes.len() + 1)),
        step_for_line(scopes_after_line(scopes, push), pop) == EvalStepText::Reply(
            exited_reply(scopes.len()),
        ),
{
    lemma_keywords_differ();
    assert(scopes.push(Map::empty()).drop_last() =~= scopes);
}

/// A value is visible under the name it was bound to, and under `_`, right after the
/// evaluation that gave it.
pub proof fn lemma_bound_value_is_visible(
    scopes: Seq<Bindings>,
    bind: Seq<char>,
    bits: u64,
    text: Seq<char>,
)
    requires
        scopes.len() >= 1,
    ensures
        visible(
            scopes_after_outcome(scopes, bind, EvalOutcomeText::Value { bits, text }),
            bind,
        ) == Some(bits),
        visible(
            scopes_after_outcome(scopes, bind, EvalOutcomeText::Value { bits, text }),
            answer_name(),
        ) == Some(bits),
{
}

/// What is bound between a `push` and the `pop` that closes it is gone with the scope: the
/// scopes are what they were before the `push`, and so is what every name stands for.
pub proof fn lemma_binding_ends_with_its_scope(
    scopes: Seq<Bindings>,
    push: Seq<char>,
    bind: Seq<char>,
    outcome: EvalOutcomeText,
    pop: Seq<char>,
)
    requires
        scopes.len() >= 1,
        words(push).len() > 0,
        words(push)[0] == push_word(),
        words(pop).len() > 0,
        words(pop)[0] == pop_word(),
    ensures
        scopes_after_line(
            scopes_after_outcome(scopes_after_line(scopes, push), bind, outcome),
            pop,
        ) == scopes,
{
    lemma_keywords_differ();
    let opened = scopes_after_line(scopes, push);
    let bound = scopes_after_outcome(opened, bind, outcome);
    assert(bound.drop_last() =~= scopes);
}

/// The calculators of all users, each made when its user first says something, and kept from
/// then on.
#[derive(Debug)]
pub struct EvalRepl {
    names: Vec<String>,
    users: Vec<EvalUser>,
}

/// The index of the first of `names` at or after `from` that is `name`, or `names.len()`.
pub open spec fn user_index(names: Seq<String>, name: Seq<char>, from: int) -> int
    decreases names.len() - from,
{
    if from < 0 || from >= names.len() {
        names.len() as int
    } else if names[from]@ == name {
        from
    } else {
        user_index(names, name, from + 1)
    }
}

/// `user_index` names the first of that name: none before it has it.
proof fn lemma_user_index(names: Seq<String>, name: Seq<char>, from: int)
    requires
        0 <= from <= names.len(),
    ensures
        from <= user_index(names, name, from) <= names.len(),
        user_index(names, name, from) < names.len() ==> names[user_index(names, name, from)]@
            == name,
        forall|i: int| from <= i < user_index(names, name, from) ==> (#[trigger] names[i])@ != name,
    decreases names.len() - from,
{
    if from < names.len() && names[from]@ != name {
        lemma_user_index(names, name, from + 1);
    }
}

/// What a name finds among the names once one more stands behind them.
proof fn lemma_user_index_pushed(names: Seq<String>, added: String, name: Seq<char>, from: int)
    requires
        0 <= from <= names.len(),
    ensures
        user_index(names.push(added), name, from) == if user_index(names, name, from)
            < names.len() || added@ == name {
            user_index(names, name, from)
        } else {
            names.len() as int + 1
        },
    decreases names.len() - from,
{
    let after = names.push(added);
    if from < names.len() {
        assert(after[from] == names[from]);
        if names[from]@ != name {
            lemma_user_index_pushed(names, added, name, from + 1);
        }
    } else {
        assert(after[from] == added);
        assert(user_index(after, name, from + 1) == after.len());
    }
}

impl EvalRepl {
    /// The calculators are well formed: each is, each has its user's name, and no user has
    /// two. Every value that this module hands out is.
    pub closed spec fn wf(&self) -> bool {
        &&& self.names.len() == self.users.len()
        &&& distinct(self.names@)
        &&& forall|i: int| 0 <= i < self.users.len() ==> (#[trigger] self.users[i]).wf()
    }

    /// The users that have a calculator, in the order of their first lines.
    pub closed spec fn usernames(&self) -> Seq<Seq<char>> {
        texts(self.names@)
    }

    /// Each user has one calculator: no name stands twice among the users, and the users
    /// known are those named.
    pub proof fn lemma_one_calculator_each(&self)
        requires
            self.wf(),
        ensures
            self.usernames().no_duplicates(),
            forall|username: Seq<char>|
                self.knows(username) <==> self.usernames().contains(username),
    {
        assert forall|username: Seq<char>| self.knows(username) <==> self.usernames().contains(
            username,
        ) by {
            lemma_user_index(self.names@, username, 0);
            if self.knows(username) {
                assert(self.usernames()[user_index(self.names@, username, 0)] == username);
            }
            if self.usernames().contains(username) {
                let i = choose|i: int|
                    0 <= i < self.usernames().len() && self.usernames()[i] == username;
                assert(self.names@[i]@ == username);
            }
        }
    }

    /// Whether `username` has a calculator yet.
    pub closed spec fn knows(&self, username: Seq<char>) -> bool {
        user_index(self.names@, username, 0) < self.names.len()
    }

    /// The scopes of `username`: those of the user's calculator, or the one empty scope that
    /// a user starts with.
    pub closed spec fn scopes_of(&self, username: Seq<char>) -> Seq<Bindings> {
        let i = user_index(self.names@, username, 0);
        if i < self.users.len() {
            self.users[i]@
        } else {
            seq![Map::empty()]
        }
    }

    /// No calculators: nobody has said anything yet.
    pub fn new() -> (r: Self)
        ensures
            r.wf(),
            forall|username: Seq<char>| !r.knows(username),
            forall|username: Seq<char>|
                #[trigger] r.scopes_of(username) == seq![Map::<Seq<char>, u64>::empty()],
    {
        EvalRepl { names: Vec::new(), users: Vec::new() }
    }

    /// The place of the calculator of `username`, or the number of calculators.
    fn position(&self, username: &str) -> (i: usize)
        ensures
            i == user_index(self.names@, username@, 0),
            i <= self.names.len(),
    {
        let mut i: usize = 0;
        while i < self.names.len()
            invariant
                i <= self.names.len(),
                user_index(self.names@, username@, 0) == user_index(
                    self.names@,
                    username@,
                    i as int,
                ),
            decreases self.names.len() - i,
        {
            if same_text(self.names[i].as_str(), username) {
                return i;
            }
            i += 1;
        }
        i
    }

    /// The calculator of `username`, where the user has one.
    pub fn user(&self, username: &str) -> (r: Option<&EvalUser>)
        requires
            self.wf(),
        ensures
            match r {
                Some(user) => self.knows(username@) && user@ == self.scopes_of(username@)
                    && user.wf(),
                None => !self.knows(username@),
            },
    {
        let i = self.position(username);
        if i < self.users.len() {
            Some(&self.users[i])
        } else {
            None
        }
    }

    /// Takes the calculator of `username` out, or makes one; the caller puts it back.
    fn take(&mut self, username: &str) -> (r: (usize, EvalUser))
        requires
            old(self).wf(),
        ensures
            r.1.wf(),
            r.1@ == old(self).scopes_of(username@),
            r.0 == user_index(old(self).names@, username@, 0),
            r.0 <= old(self).names.len(),
            distinct(final(self).names@),
            r.0 < old(self).names.len() ==> final(self).names@ == old(self).names@
                && final(self).users@ == old(self).users@.remove(r.0 as int),
            r.0 == old(self).names.len() ==> final(self).names@ == old(self).names@.push(
                final(self).names@.last(),
            ) && final(self).names@.last()@ == username@ && final(self).users@ == old(
                self,
            ).users@,
    {
        let i = self.position(username);
        if i < self.users.len() {
            (i, self.users.remove(i))
        } else {
            proof {
                lemma_user_index(self.names@, username@, 0);
            }
            self.names.push(String::from_str(username));
            (i, EvalUser::new())
        }
    }

    /// Reads one line for `username`, whose calculator is made if this is the user's first
    /// line; see [`EvalUser::begin`]. No other user's scopes change.
    pub fn begin(&mut self, username: &str, line: &str) -> (r: EvalStep)
        requires
            old(self).wf(),
        ensures
            final(self).wf(),
            final(self).knows(username@),
            final(self).scopes_of(username@) == scopes_after_line(
                old(self).scopes_of(username@),
                line@,
            ),
            r@ == step_for_line(old(self).scopes_of(username@), line@),
            forall|other: Seq<char>|
                other != username@ ==> #[trigger] final(self).scopes_of(other) == old(
                    self,
                ).scopes_of(other) && final(self).knows(other) == old(self).knows(other),
    {
        let (i, mut user) = self.take(username);
        let ghost rest = self.users@;
        let step = user.begin(line);
        self.users.insert(i, user);
        proof {
            assert(self.users@.remove(i as int) =~= rest);
            self.lemma_put_back(*old(self), username@, i as int);
        }
        step
    }

    /// Takes in the outcome of an evaluation for `username`; see [`EvalUser::finish`]. No
    /// other user's scopes change.
    pub fn finish(&mut self, username: &str, bind: &str, outcome: EvalOutcome) -> (r: String)
        requires
            old(self).wf(),
        ensures
            final(self).wf(),
            final(self).knows(username@),
            final(self).scopes_of(username@) == scopes_after_outcome(
                old(self).scopes_of(username@),
                bind@,
                outcome@,
            ),
            r@ == reply_for_outcome(outcome@),
            forall|other: Seq<char>|
                other != username@ ==> #[trigger] final(self).scopes_of(other) == old(
                    self,
                ).scopes_of(other) && final(self).knows(other) == old(self).knows(other),
    {
        let (i, mut user) = self.take(username);
        let ghost rest = self.users@;
        let reply = user.finish(bind, outcome);
        self.users.insert(i, user);
        proof {
            assert(self.users@.remove(i as int) =~= rest);
            self.lemma_put_back(*old(self), username@, i as int);
        }
        reply
    }

    /// A calculator put back at the place of its user changes what that user's name finds,
    /// and nothing else.
    proof fn lemma_put_back(&self, before: EvalRepl, username: Seq<char>, i: int)
        requires
            before.names.len() == before.users.len(),
            i == user_index(before.names@, username, 0),
            0 <= i < self.users.len(),
            self.names.len() == self.users.len(),
            i < before.names.len() ==> self.names@ == before.names@ && self.users@.remove(i)
                == before.users@.remove(i),
            i == before.names.len() ==> self.names@ == before.names@.push(self.names@.last())
                && self.names@.last()@ == username && self.users@.remove(i) == before.users@,
        ensures
            self.knows(username),
            self.scopes_of(username) == self.users[i]@,
            forall|other: Seq<char>|
                other != username ==> #[trigger] self.scopes_of(other) == before.scopes_of(other)
                    && self.knows(other) == before.knows(other),
    {
        lemma_user_index(before.names@, username, 0);
        if i == before.names.len() {
            lemma_user_index_pushed(before.names@, self.names@.last(), username, 0);
        }
        assert forall|other: Seq<char>| other != username implies #[trigger] self.scopes_of(other)
            == before.scopes_of(other) && self.knows(other) == before.knows(other) by {
            lemma_user_index(before.names@, other, 0);
            let j = user_index(before.names@, other, 0);
            if i == before.names.len() {
                lemma_user_index_pushed(before.names@, self.names@.last(), other, 0);
                if j < before.names.len() {
                    assert(self.users@.remove(i)[j] == self.users@[j]);
                }
            } else if j < before.names.len() {
                assert(j != i);
                if j < i {
                    assert(self.users@.remove(i)[j] == self.users@[j]);
                    assert(before.users@.remove(i)[j] == before.users@[j]);
                } else {
                    assert(self.users@.remove(i)[j - 1] == self.users@[j]);
                    assert(before.users@.remove(i)[j - 1] == before.users@[j]);
                }
            }
        }
    }
}

/// A user's first line is read by a calculator with one empty scope, whatever other users
/// have said before.
pub proof fn lemma_first_line_meets_a_fresh_calculator(repl: EvalRepl, username: Seq<char>)
    requires
        repl.wf(),
        !repl.knows(username),
    ensures
        repl.scopes_of(username) == seq![Map::<Seq<char>, u64>::empty()],
{
}

} // verus!
