//! The card tree that the frontend produces: the structured form of a
//! cao-lang program before it is compiled to bytecode.
use vstd::prelude::*;

verus! {

/// One node of a cao-lang program.
#[derive(Debug, PartialEq, Eq)]
pub enum Card {
    ReadVar(String),
    ScalarInt(i64),
    /// A float literal, kept as its source text (a valid `f64` literal).
    ScalarFloat(String),
    StringLiteral(String),
    Add(Box<Card>, Box<Card>),
    Sub(Box<Card>, Box<Card>),
    Mul(Box<Card>, Box<Card>),
    Div(Box<Card>, Box<Card>),
    Less(Box<Card>, Box<Card>),
    LessOrEq(Box<Card>, Box<Card>),
    Equals(Box<Card>, Box<Card>),
    NotEquals(Box<Card>, Box<Card>),
    IfTrue(Box<Card>, Box<Card>),
    IfElse(Box<Card>, Box<Card>, Box<Card>),
    Array(Vec<Card>),
    CreateTable,
    SetVar(String, Box<Card>),
    SetGlobalVar(String, Box<Card>),
    SetProperty { value: Box<Card>, table: Box<Card>, key: Box<Card> },
    GetProperty { table: Box<Card>, key: Box<Card> },
    Get(Box<Card>, Box<Card>),
    CompositeCard(String, Vec<Card>),
    Closure(Box<Function>),
    Return(Box<Card>),
    CallFunction(String, Vec<Card>),
    CallNative(String, Vec<Card>),
    While(Box<Card>, Box<Card>),
    Repeat { count: Box<Card>, var: Option<String>, body: Box<Card> },
    ForEach {
        i: Option<String>,
        k: Option<String>,
        v: Option<String>,
        iterable: Box<Card>,
        body: Box<Card>,
    },
}

/// A function: its parameter names and the cards of its body.
#[derive(Debug, PartialEq, Eq)]
pub struct Function {
    pub arguments: Vec<String>,
    pub cards: Vec<Card>,
}

/// A module: named submodules, named functions and import paths.
#[derive(Debug, PartialEq, Eq)]
pub struct Module {
    pub submodules: Vec<(String, Module)>,
    pub functions: Vec<(String, Function)>,
    pub imports: Vec<String>,
}

/// Mathematical model of a [`Card`].
pub enum SpecCard {
    ReadVar(Seq<char>),
    ScalarInt(i64),
    ScalarFloat(Seq<char>),
    StringLiteral(Seq<char>),
    Add(Box<SpecCard>, Box<SpecCard>),
    Sub(Box<SpecCard>, Box<SpecCard>),
    Mul(Box<SpecCard>, Box<SpecCard>),
    Div(Box<SpecCard>, Box<SpecCard>),
    Less(Box<SpecCard>, Box<SpecCard>),
    LessOrEq(Box<SpecCard>, Box<SpecCard>),
    Equals(Box<SpecCard>, Box<SpecCard>),
    NotEquals(Box<SpecCard>, Box<SpecCard>),
    IfTrue(Box<SpecCard>, Box<SpecCard>),
    IfElse(Box<SpecCard>, Box<SpecCard>, Box<SpecCard>),
    Array(Seq<SpecCard>),
    CreateTable,
    SetVar(Seq<char>, Box<SpecCard>),
    SetGlobalVar(Seq<char>, Box<SpecCard>),
    SetProperty { value: Box<SpecCard>, table: Box<SpecCard>, key: Box<SpecCard> },
    GetProperty { table: Box<SpecCard>, key: Box<SpecCard> },
    Get(Box<SpecCard>, Box<SpecCard>),
    CompositeCard(Seq<char>, Seq<SpecCard>),
    Closure(Box<SpecFunction>),
    Return(Box<SpecCard>),
    CallFunction(Seq<char>, Seq<SpecCard>),
    CallNative(Seq<char>, Seq<SpecCard>),
    While(Box<SpecCard>, Box<SpecCard>),
    Repeat { count: Box<SpecCard>, var: Option<Seq<char>>, body: Box<SpecCard> },
    ForEach {
        i: Option<Seq<char>>,
        k: Option<Seq<char>>,
        v: Option<Seq<char>>,
        iterable: Box<SpecCard>,
        body: Box<SpecCard>,
    },
}

/// Mathematical model of a [`Function`].
pub struct SpecFunction {
    pub arguments: Seq<Seq<char>>,
    pub cards: Seq<SpecCard>,
}

/// Mathematical model of a [`Module`].
pub struct SpecModule {
    pub submodules: Seq<(Seq<char>, SpecModule)>,
    pub functions: Seq<(Seq<char>, SpecFunction)>,
    pub imports: Seq<Seq<char>>,
}

pub open spec fn strings_view(s: Seq<String>) -> Seq<Seq<char>> {
    s.map_values(|x: String| x@)
}

pub open spec fn opt_string_view(s: Option<String>) -> Option<Seq<char>> {
    match s {
        Some(x) => Some(x@),
        None => None,
    }
}

pub open spec fn card_view(c: Card) -> SpecCard
    decreases c, 0int,
{
    match c {
        Card::ReadVar(s) => SpecCard::ReadVar(s@),
        Card::ScalarInt(v) => SpecCard::ScalarInt(v),
        Card::ScalarFloat(s) => SpecCard::ScalarFloat(s@),
        Card::StringLiteral(s) => SpecCard::StringLiteral(s@),
        Card::Add(a, b) => SpecCard::Add(Box::new(card_view(*a)), Box::new(card_view(*b))),
        Card::Sub(a, b) => SpecCard::Sub(Box::new(card_view(*a)), Box::new(card_view(*b))),
        Card::Mul(a, b) => SpecCard::Mul(Box::new(card_view(*a)), Box::new(card_view(*b))),
        Card::Div(a, b) => SpecCard::Div(Box::new(card_view(*a)), Box::new(card_view(*b))),
        Card::Less(a, b) => SpecCard::Less(Box::new(card_view(*a)), Box::new(card_view(*b))),
        Card::LessOrEq(a, b) => SpecCard::LessOrEq(
            Box::new(card_view(*a)),
            Box::new(card_view(*b)),
        ),
        Card::Equals(a, b) => SpecCard::Equals(Box::new(card_view(*a)), Box::new(card_view(*b))),
        Card::NotEquals(a, b) => SpecCard::NotEquals(
            Box::new(card_view(*a)),
            Box::new(card_view(*b)),
        ),
        Card::IfTrue(a, b) => SpecCard::IfTrue(Box::new(card_view(*a)), Box::new(card_view(*b))),
        Card::IfElse(a, b, e) => SpecCard::IfElse(
            Box::new(card_view(*a)),
            Box::new(card_view(*b)),
            Box::new(card_view(*e)),
        ),
        Card::Array(v) => SpecCard::Array(cards_view_from(v@, 0)),
        Card::CreateTable => SpecCard::CreateTable,
        Card::SetVar(n, v) => SpecCard::SetVar(n@, Box::new(card_view(*v))),
        Card::SetGlobalVar(n, v) => SpecCard::SetGlobalVar(n@, Box::new(card_view(*v))),
        Card::SetProperty { value, table, key } => SpecCard::SetProperty {
            value: Box::new(card_view(*value)),
            table: Box::new(card_view(*table)),
            key: Box::new(card_view(*key)),
        },
        Card::GetProperty { table, key } => SpecCard::GetProperty {
            table: Box::new(card_view(*table)),
            key: Box::new(card_view(*key)),
        },
        Card::Get(a, b) => SpecCard::Get(Box::new(card_view(*a)), Box::new(card_view(*b))),
        Card::CompositeCard(n, v) => SpecCard::CompositeCard(n@, cards_view_from(v@, 0)),
        Card::Closure(f) => SpecCard::Closure(Box::new(function_view(*f))),
        Card::Return(a) => SpecCard::Return(Box::new(card_view(*a))),
        Card::CallFunction(n, v) => SpecCard::CallFunction(n@, cards_view_from(v@, 0)),
        Card::CallNative(n, v) => SpecCard::CallNative(n@, cards_view_from(v@, 0)),
        Card::While(a, b) => SpecCard::While(Box::new(card_view(*a)), Box::new(card_view(*b))),
        Card::Repeat { count, var, body } => SpecCard::Repeat {
            count: Box::new(card_view(*count)),
            var: opt_string_view(var),
            body: Box::new(card_view(*body)),
        },
        Card::ForEach { i, k, v, iterable, body } => SpecCard::ForEach {
            i: opt_string_view(i),
            k: opt_string_view(k),
            v: opt_string_view(v),
            iterable: Box::new(card_view(*iterable)),
            body: Box::new(card_view(*body)),
        },
    }
}

pub open spec fn cards_view_from(s: Seq<Card>, i: int) -> Seq<SpecCard>
    decreases s, s.len() - i,
{
    if 0 <= i < s.len() {
        seq![card_view(s[i])] + cards_view_from(s, i + 1)
    } else {
        Seq::empty()
    }
}

pub open spec fn function_view(f: Function) -> SpecFunction
    decreases f, 0int,
{
    SpecFunction { arguments: strings_view(f.arguments@), cards: cards_view_from(f.cards@, 0) }
}

/// The views of a sequence of cards.
pub open spec fn cards_view(s: Seq<Card>) -> Seq<SpecCard> {
    cards_view_from(s, 0)
}

impl View for Card {
    type V = SpecCard;

    open spec fn view(&self) -> SpecCard {
        card_view(*self)
    }
}

impl View for Function {
    type V = SpecFunction;

    open spec fn view(&self) -> SpecFunction {
        function_view(*self)
    }
}

pub open spec fn module_view(m: Module) -> SpecModule
    decreases m, 0int,
{
    SpecModule {
        submodules: submodules_view_from(m.submodules@, 0),
        functions: m.functions@.map_values(|p: (String, Function)| (p.0@, p.1@)),
        imports: strings_view(m.imports@),
    }
}

pub open spec fn submodules_view_from(s: Seq<(String, Module)>, i: int) -> Seq<(Seq<char>, SpecModule)>
    decreases s, s.len() - i,
{
    if 0 <= i < s.len() {
        seq![(s[i].0@, module_view(s[i].1))] + submodules_view_from(s, i + 1)
    } else {
        Seq::empty()
    }
}

impl View for Module {
    type V = SpecModule;

    open spec fn view(&self) -> SpecModule {
        module_view(*self)
    }
}

pub proof fn lemma_cards_view_from(s: Seq<Card>, i: int)
    requires
        0 <= i <= s.len(),
    ensures
        cards_view_from(s, i).len() == s.len() - i,
        forall|k: int| 0 <= k < s.len() - i ==> #[trigger] cards_view_from(s, i)[k] == card_view(s[i + k]),
    decreases s.len() - i,
{
    if i < s.len() {
        lemma_cards_view_from(s, i + 1);
    }
}

/// The view of a sequence of cards, element by element.
pub proof fn lemma_cards_view(s: Seq<Card>)
    ensures
        cards_view(s) =~= s.map_values(|c: Card| card_view(c)),
{
    lemma_cards_view_from(s, 0);
}

/// Appending a card appends its view.
pub proof fn lemma_cards_view_push(s: Seq<Card>, c: Card)
    ensures
        cards_view(s.push(c)) =~= cards_view(s).push(card_view(c)),
{
    lemma_cards_view(s);
    lemma_cards_view(s.push(c));
}

pub proof fn lemma_submodules_view_from(s: Seq<(String, Module)>, i: int)
    requires
        0 <= i <= s.len(),
    ensures
        submodules_view_from(s, i).len() == s.len() - i,
        forall|k: int|
            0 <= k < s.len() - i ==> #[trigger] submodules_view_from(s, i)[k] == (
                s[i + k].0@,
                module_view(s[i + k].1),
            ),
    decreases s.len() - i,
{
    if i < s.len() {
        lemma_submodules_view_from(s, i + 1);
    }
}

pub proof fn lemma_submodules_view_push(s: Seq<(String, Module)>, p: (String, Module))
    ensures
        submodules_view_from(s.push(p), 0) =~= submodules_view_from(s, 0).push(
            (p.0@, module_view(p.1)),
        ),
{
    lemma_submodules_view_from(s, 0);
    lemma_submodules_view_from(s.push(p), 0);
}

} // verus!
