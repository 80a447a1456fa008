//! The structured surface: a command name with typed options, or the
//! activation of a control that carries a token.
use crate::commands::{marker_of, Marker};
use crate::custom_id::{token_of, CustomId};
use crate::data::{
    clamp_amount, pair_of, About, BookOfAnswers, ClowCardInfo, Command, Data, Dice, DrawClowcard,
    Error, RandomPick, RelationshipCalculator,
};
use crate::text::str_eq;
use vstd::prelude::*;
use vstd::utf8::encode_utf8;

verus! {

/// The value of one option.
#[derive(Debug)]
pub enum CommandOptionValue {
    String(String),
    Integer(i64),
    User(u64),
    Other,
}

/// One option of a structured command.
#[derive(Debug)]
pub struct CommandDataOption {
    pub name: String,
    pub value: CommandOptionValue,
}

/// What a structured event carries.
#[derive(Debug)]
pub enum InteractionData {
    ApplicationCommand { name: String, options: Vec<CommandDataOption> },
    MessageComponent { custom_id: String },
    Other,
}

/// A structured event and the user behind it.
#[derive(Debug)]
pub struct Interaction {
    pub author: Option<u64>,
    pub data: Option<InteractionData>,
}

pub open spec fn option_string(v: CommandOptionValue) -> Option<Seq<char>> {
    match v {
        CommandOptionValue::String(s) => Some(s@),
        _ => None,
    }
}

/// The count that an integer option gives; a negative one counts as 0.
pub open spec fn option_count(v: CommandOptionValue) -> Option<usize> {
    match v {
        CommandOptionValue::Integer(i) => Some(if i < 0 {
            0
        } else {
            i as usize
        }),
        _ => None,
    }
}

/// Typed access to an option's value.
pub trait CommandOptionValueData {
    /// The text of a string option.
    spec fn spec_string(&self) -> Option<Seq<char>>;

    /// The number of an integer option.
    spec fn spec_i64(&self) -> Option<i64>;

    fn string(&self) -> (r: Option<&str>)
        ensures
            match r {
                Some(s) => self.spec_string() == Some(s@),
                None => self.spec_string() is None,
            },
    ;

    fn i64(&self) -> (r: Option<i64>)
        ensures
            r == self.spec_i64(),
    ;

    /// The number of an integer option, cast to `usize`.
    fn usize(&self) -> (r: Option<usize>)
        ensures
            r == (match self.spec_i64() {
                Some(i) => Some(i as usize),
                None => None,
            }),
    ;
}

impl CommandOptionValueData for CommandOptionValue {
    open spec fn spec_string(&self) -> Option<Seq<char>> {
        option_string(*self)
    }

    open spec fn spec_i64(&self) -> Option<i64> {
        match *self {
            CommandOptionValue::Integer(i) => Some(i),
            _ => None,
        }
    }

    fn string(&self) -> (r: Option<&str>) {
        match self {
            CommandOptionValue::String(s) => Some(s.as_str()),
            _ => None,
        }
    }

    fn i64(&self) -> (r: Option<i64>) {
        match self {
            CommandOptionValue::Integer(i) => Some(*i),
            _ => None,
        }
    }

    fn usize(&self) -> (r: Option<usize>) {
        match self.i64() {
            Some(i) => Some(i as usize),
            None => None,
        }
    }
}

/// The options of a structured pick: all of them, which must be strings.
pub open spec fn pick_options(opts: Seq<CommandDataOption>) -> Option<Seq<Seq<char>>> {
    if forall|i: int| 0 <= i < opts.len() ==> (#[trigger] opts[i]).value is String {
        Some(opts.map_values(|o: CommandDataOption| option_string(o.value)->0))
    } else {
        None
    }
}

/// The prompt of a structured book-of-answers: the first option, a string.
pub open spec fn answer_options(opts: Seq<CommandDataOption>) -> Option<Option<Seq<char>>> {
    if opts.len() == 0 {
        Some(None)
    } else {
        match opts[0].value {
            CommandOptionValue::String(s) => Some(Some(s@)),
            _ => None,
        }
    }
}

/// The last option named `prompt`, as a string.
pub open spec fn draw_prompt_options(opts: Seq<CommandDataOption>) -> Option<Seq<char>>
    decreases opts.len(),
{
    if opts.len() == 0 {
        None
    } else if opts.last().name@ == "prompt"@ {
        option_string(opts.last().value)
    } else {
        draw_prompt_options(opts.drop_last())
    }
}

/// The last option named `amount`, as a count.
pub open spec fn draw_amount_options(opts: Seq<CommandDataOption>) -> Option<usize>
    decreases opts.len(),
{
    if opts.len() == 0 {
        None
    } else if opts.last().name@ == "amount"@ {
        option_count(opts.last().value)
    } else {
        draw_amount_options(opts.drop_last())
    }
}

/// The users of the first two options, which must be users.
pub open spec fn relation_options(opts: Seq<CommandDataOption>) -> Option<Seq<u64>> {
    let n = if opts.len() < 2 {
        opts.len()
    } else {
        2
    };
    if forall|i: int| 0 <= i < n ==> (#[trigger] opts[i]).value is User {
        Some(
            opts.take(n as int).map_values(
                |o: CommandDataOption|
                    match o.value {
                        CommandOptionValue::User(u) => u,
                        _ => 0,
                    },
            ),
        )
    } else {
        None
    }
}

/// The dice count of the first option, 1 without one; it must be an integer
/// in 1..=100.
pub open spec fn dice_options(opts: Seq<CommandDataOption>) -> Option<u32> {
    let a: Option<i64> = if opts.len() == 0 {
        Some(1)
    } else {
        match opts[0].value {
            CommandOptionValue::Integer(v) => Some(v),
            _ => None,
        }
    };
    match a {
        Some(v) => if 1 <= v <= 100 {
            Some(v as u32)
        } else {
            None
        },
        None => None,
    }
}

pub open spec fn malformed() -> Command {
    Command::Error { message: "malformed arguments"@ }
}

pub open spec fn unsupported() -> Command {
    Command::Error { message: "unsupported command type"@ }
}

/// What a structured command of the user `author` asks for.
pub open spec fn app_command(name: Seq<char>, opts: Seq<CommandDataOption>, author: u64) -> Command {
    match marker_of(name) {
        None => Command::Error { message: "unknown command"@ },
        Some(Marker::RandomPick) => match pick_options(opts) {
            Some(c) => Command::RandomPick { choices: c, show_prompt: true },
            None => malformed(),
        },
        Some(Marker::DrawClowcard) => Command::DrawClowcard {
            prompt: draw_prompt_options(opts),
            author: Some(author),
            amount: clamp_amount(draw_amount_options(opts)),
            show_prompt: true,
        },
        Some(Marker::RelationshipCalculator) => match relation_options(opts) {
            Some(ids) => Command::LoveCalculator { targets: pair_of(ids, author) },
            None => malformed(),
        },
        Some(Marker::BookOfAnswers) => match answer_options(opts) {
            Some(p) => Command::BookOfAnswers { prompt: p, author: Some(author), show_prompt: true },
            None => malformed(),
        },
        Some(Marker::Dice) => match dice_options(opts) {
            Some(a) => Command::Dice { amount: a },
            None => malformed(),
        },
        Some(Marker::About) => Command::About,
    }
}

/// What a control's token reads back to: the card that it names, or an error
/// for a token that this library did not write.
pub open spec fn component_result(token: Seq<char>, c: Command) -> bool {
    &&& forall|name: Seq<char>|
        token == token_of(name) && encode_utf8(name).len() <= usize::MAX ==> c
            == Command::ClowCardInfo { name }
    &&& c matches Command::ClowCardInfo { name } ==> token == token_of(name)
    &&& !(c is ClowCardInfo) ==> c == Command::Error { message: "invalid component id"@ }
}

/// What a structured event asks for.
pub open spec fn interaction_result(itr: Interaction, c: Command) -> bool {
    match itr.data {
        None => c == unsupported(),
        Some(d) => match itr.author {
            None => c == (Command::Error { message: "command should come from a user"@ }),
            Some(a) => match d {
                InteractionData::ApplicationCommand { name, options } => c == app_command(
                    name@,
                    options@,
                    a,
                ),
                InteractionData::MessageComponent { custom_id } => component_result(custom_id@, c),
                InteractionData::Other => c == unsupported(),
            },
        },
    }
}

/// An incoming event of either surface.
#[derive(Debug)]
pub enum InputRaw {
    /// A chat message and its author.
    Message { content: String, author: u64 },
    /// A structured event.
    Interaction(Interaction),
}

impl RandomPick {
    /// All options, in order; each must be a string.
    pub fn from_options(opts: &Vec<CommandDataOption>) -> (r: Option<RandomPick>)
        ensures
            match pick_options(opts@) {
                Some(c) => r matches Some(p) && p@ == Command::RandomPick { choices: c, show_prompt: true },
                None => r is None,
            },
    {
        let mut choices: Vec<String> = Vec::new();
        let mut i: usize = 0;
        while i < opts.len()
            invariant
                0 <= i <= opts.len(),
                choices@.len() == i,
                forall|k: int| 0 <= k < i ==> (#[trigger] opts@[k]).value is String,
                forall|k: int|
                    0 <= k < i ==> Some((#[trigger] choices@[k])@) == option_string(opts@[k].value),
            decreases opts.len() - i,
        {
            match &opts[i].value {
                CommandOptionValue::String(s) => choices.push(s.clone()),
                _ => return None,
            }
            i = i + 1;
        }
        let r = RandomPick { choices, show_prompt: true };
        assert(crate::data::strings(r.choices@) =~= opts@.map_values(
            |o: CommandDataOption| option_string(o.value)->0,
        ));
        Some(r)
    }
}

impl BookOfAnswers {
    /// The first option, a string, is the prompt.
    pub fn from_options(opts: &Vec<CommandDataOption>) -> (r: Option<BookOfAnswers>)
        ensures
            match answer_options(opts@) {
                Some(p) => r matches Some(b) && b@ == Command::BookOfAnswers {
                    prompt: p,
                    author: None,
                    show_prompt: true,
                },
                None => r is None,
            },
    {
        if opts.len() == 0 {
            return Some(BookOfAnswers { prompt: None, author: None, show_prompt: true });
        }
        match &opts[0].value {
            CommandOptionValue::String(s) => Some(
                BookOfAnswers { prompt: Some(s.clone()), author: None, show_prompt: true },
            ),
            _ => None,
        }
    }
}

impl DrawClowcard {
    /// The options named `prompt` and `amount`; the last of each counts.
    pub fn from_options(opts: &Vec<CommandDataOption>) -> (r: DrawClowcard)
        ensures
            r@ == (Command::DrawClowcard {
                prompt: draw_prompt_options(opts@),
                author: None,
                amount: draw_amount_options(opts@),
                show_prompt: true,
            }),
    {
        let mut prompt: Option<String> = None;
        let mut amount: Option<usize> = None;
        let mut i: usize = 0;
        while i < opts.len()
            invariant
                0 <= i <= opts.len(),
                crate::data::opt_string(prompt) == draw_prompt_options(opts@.take(i as int)),
                amount == draw_amount_options(opts@.take(i as int)),
            decreases opts.len() - i,
        {
            let op = &opts[i];
            assert(opts@.take(i + 1).drop_last() =~= opts@.take(i as int));
            assert(opts@.take(i + 1).last() == opts@[i as int]);
            if str_eq(op.name.as_str(), "prompt") {
                prompt = match op.value.string() {
                    Some(s) => Some(String::from_str(s)),
                    None => None,
                };
            } else if str_eq(op.name.as_str(), "amount") {
                amount = match op.value.i64() {
                    Some(v) => Some(if v < 0 {
                        0
                    } else {
                        v as usize
                    }),
                    None => None,
                };
            }
            proof {
                reveal_strlit("prompt");
                reveal_strlit("amount");
                assert("prompt"@[0] != "amount"@[0]);
            }
            i = i + 1;
        }
        assert(opts@.take(opts.len() as int) =~= opts@);
        DrawClowcard { prompt, author: None, amount, show_prompt: true }
    }
}

impl RelationshipCalculator {
    /// The users of the first two options, which must be users.
    pub fn from_options(opts: &Vec<CommandDataOption>) -> (r: Option<RelationshipCalculator>)
        ensures
            match relation_options(opts@) {
                Some(ids) => r matches Some(c) && c.targets@ == ids,
                None => r is None,
            },
    {
        let n: usize = if opts.len() < 2 {
            opts.len()
        } else {
            2
        };
        let mut targets: Vec<u64> = Vec::new();
        let mut i: usize = 0;
        while i < n
            invariant
                0 <= i <= n <= opts.len(),
                n == (if opts.len() < 2 { opts.len() } else { 2 }),
                targets@.len() == i,
                forall|k: int| 0 <= k < i ==> (#[trigger] opts@[k]).value is User,
                forall|k: int|
                    0 <= k < i ==> opts@[k].value == CommandOptionValue::User(#[trigger] targets@[k]),
            decreases n - i,
        {
            match &opts[i].value {
                CommandOptionValue::User(u) => targets.push(*u),
                _ => return None,
            }
            i = i + 1;
        }
        let ghost ids = opts@.take(n as int).map_values(
            |o: CommandDataOption|
                match o.value {
                    CommandOptionValue::User(u) => u,
                    _ => 0,
                },
        );
        assert(targets@ =~= ids);
        Some(RelationshipCalculator { targets })
    }
}

impl Dice {
    /// The first option, an integer in 1..=100, or 1 without one.
    pub fn from_options(opts: &Vec<CommandDataOption>) -> (r: Option<Dice>)
        ensures
            match dice_options(opts@) {
                Some(a) => r matches Some(d) && d.amount == a,
                None => r is None,
            },
    {
        let a: i64 = if opts.len() == 0 {
            1
        } else {
            match &opts[0].value {
                CommandOptionValue::Integer(v) => *v,
                _ => return None,
            }
        };
        if 1 <= a && a <= 100 {
            Some(Dice { amount: a as u32 })
        } else {
            None
        }
    }
}

fn error(message: &str) -> (r: Data)
    ensures
        r@ == (Command::Error { message: message@ }),
{
    Data::Error(Error { error: String::from_str(message) })
}

impl Data {
    /// Reads a structured command of the user `author`.
    pub fn from_command(name: &str, opts: &Vec<CommandDataOption>, author: u64) -> (r: Data)
        ensures
            r@ == app_command(name@, opts@, author),
    {
        let marker = match Marker::from_name(name) {
            Some(m) => m,
            None => return error("unknown command"),
        };
        match marker {
            Marker::RandomPick => match RandomPick::from_options(opts) {
                Some(p) => Data::RandomPick(p),
                None => error("malformed arguments"),
            },
            Marker::DrawClowcard => {
                let mut dc = DrawClowcard::from_options(opts);
                dc.clamp();
                dc.author = Some(author);
                Data::DrawClowcard(dc)
            },
            Marker::RelationshipCalculator => match RelationshipCalculator::from_options(opts) {
                Some(mut lc) => {
                    lc.fill(author);
                    Data::LoveCalculator(lc)
                },
                None => error("malformed arguments"),
            },
            Marker::BookOfAnswers => match BookOfAnswers::from_options(opts) {
                Some(mut boa) => {
                    boa.author = Some(author);
                    Data::BookOfAnswers(boa)
                },
                None => error("malformed arguments"),
            },
            Marker::Dice => match Dice::from_options(opts) {
                Some(d) => Data::Dice(d),
                None => error("malformed arguments"),
            },
            Marker::About => Data::About(About),
        }
    }

    /// Reads the token of an activated control.
    pub fn from_component(custom_id: &str) -> (r: Data)
        ensures
            component_result(custom_id@, r@),
    {
        match CustomId::from_token(custom_id) {
            Some(CustomId::ButtonClowcardInfo(name)) => Data::ClowCardInfo(ClowCardInfo { name }),
            None => error("invalid component id"),
        }
    }

    /// Reads a structured event: a command, or a control's token.
    pub fn from_interaction(itr: &Interaction) -> (r: Data)
        ensures
            interaction_result(*itr, r@),
    {
        let data = match &itr.data {
            Some(d) => d,
            None => return error("unsupported command type"),
        };
        let author = match itr.author {
            Some(a) => a,
            None => return error("command should come from a user"),
        };
        match data {
            InteractionData::ApplicationCommand { name, options } => Data::from_command(
                name.as_str(),
                options,
                author,
            ),
            InteractionData::MessageComponent { custom_id } => Data::from_component(
                custom_id.as_str(),
            ),
            InteractionData::Other => error("unsupported command type"),
        }
    }
}

/// A structured card draw asks for at most five cards.
pub proof fn lemma_structured_draw_at_most_five(name: Seq<char>, opts: Seq<CommandDataOption>, author: u64)
    ensures
        app_command(name, opts, author) matches Command::DrawClowcard { amount: Some(v), .. } ==> v
            <= crate::data::MAX_CLOW,
{
}

impl Data {
    /// Reads an event of either surface into a command.
    pub fn from_input(raw: &InputRaw) -> (r: Data)
        ensures
            match raw {
                InputRaw::Message { content, author } => r@ == crate::data::message_command(
                    content@,
                    *author,
                ),
                InputRaw::Interaction(itr) => interaction_result(*itr, r@),
            },
    {
        match raw {
            InputRaw::Message { content, author } => Data::from_message(content.as_str(), *author),
            InputRaw::Interaction(itr) => Data::from_interaction(itr),
        }
    }
}

} // verus!
