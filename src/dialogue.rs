//! The quiz-poll conversation: who said it, then what was said, then the poll.
//!
//! Each step is a function from the conversation's state and what came in to a
//! [`Transition`]: the messages to delete or send, in order, and the next state. The caller
//! performs the effects and then asks [`settle`] for the state to keep, giving it the
//! reference of the prompt that was sent.
//!
//! A conversation left waiting stays so until a new start command replaces its state.

use vstd::prelude::*;

use crate::committee::{
    member_names, names_view, record_poll, roster_after_poll, roster_names, roster_view,
    Committee, MemberModel,
};
use crate::poll::{split_poll, valid_split};

verus! {

/// Most buttons on one row of the answer keyboard.
pub const KEYBOARD_ROW_LEN: usize = 3;

/// Where a conversation stands.
#[derive(Debug, Clone)]
pub enum PollState {
    /// Nothing pending.
    Start,
    /// The keyboard asking who said it was sent as message `message_id`.
    ChooseTarget { message_id: i32 },
    /// `target` was chosen; the request for the quote was sent as message `message_id`.
    SetQuote { message_id: i32, target: String },
}

pub enum PollStateModel {
    Start,
    ChooseTarget { message_id: i32 },
    SetQuote { message_id: i32, target: Seq<char> },
}

impl View for PollState {
    type V = PollStateModel;

    open spec fn view(&self) -> PollStateModel {
        match self {
            PollState::Start => PollStateModel::Start,
            PollState::ChooseTarget { message_id } => PollStateModel::ChooseTarget {
                message_id: *message_id,
            },
            PollState::SetQuote { message_id, target } => PollStateModel::SetQuote {
                message_id: *message_id,
                target: target@,
            },
        }
    }
}

impl Default for PollState {
    fn default() -> (r: PollState)
        ensures
            r@ == PollStateModel::Start,
    {
        PollState::Start
    }
}

/// One thing the caller must do, in the order given.
#[derive(Debug)]
pub enum Effect {
    /// Delete a message of the conversation; a failure is only logged.
    DeleteMessage { message_id: i32 },
    /// Ask who said it, with one button per name laid out in `rows`.
    SendTargetPrompt { rows: Vec<Vec<String>> },
    /// Ask for the quote.
    SendQuotePrompt,
    /// Publish the quiz poll on `quote`, with `options` and the right answer at `correct`.
    SendPoll { quote: String, options: Vec<String>, correct: usize },
    /// Tell the chat that the chosen person is not in the roster.
    SendUnknownTarget,
    /// Write the roster back to the directory.
    PersistRoster { committee: Vec<Committee> },
}

pub enum EffectModel {
    DeleteMessage { message_id: i32 },
    SendTargetPrompt { rows: Seq<Seq<Seq<char>>> },
    SendQuotePrompt,
    SendPoll { quote: Seq<char>, options: Seq<Seq<char>>, correct: int },
    SendUnknownTarget,
    PersistRoster { committee: Seq<MemberModel> },
}

pub open spec fn rows_view(rows: Seq<Vec<String>>) -> Seq<Seq<Seq<char>>> {
    rows.map_values(|r: Vec<String>| names_view(r@))
}

impl View for Effect {
    type V = EffectModel;

    open spec fn view(&self) -> EffectModel {
        match self {
            Effect::DeleteMessage { message_id } => EffectModel::DeleteMessage {
                message_id: *message_id,
            },
            Effect::SendTargetPrompt { rows } => EffectModel::SendTargetPrompt {
                rows: rows_view(rows@),
            },
            Effect::SendQuotePrompt => EffectModel::SendQuotePrompt,
            Effect::SendPoll { quote, options, correct } => EffectModel::SendPoll {
                quote: quote@,
                options: names_view(options@),
                correct: *correct as int,
            },
            Effect::SendUnknownTarget => EffectModel::SendUnknownTarget,
            Effect::PersistRoster { committee } => EffectModel::PersistRoster {
                committee: roster_view(committee@),
            },
        }
    }
}

/// The state a conversation moves to once the effects are done.
#[derive(Debug)]
pub enum Next {
    /// Stay as it was.
    Keep,
    /// Back to `Start`.
    Reset,
    /// Wait for a choice on the prompt just sent.
    AwaitTarget,
    /// Wait for the quote about `target`, asked for by the prompt just sent.
    AwaitQuote { target: String },
}

pub enum NextModel {
    Keep,
    Reset,
    AwaitTarget,
    AwaitQuote { target: Seq<char> },
}

impl View for Next {
    type V = NextModel;

    open spec fn view(&self) -> NextModel {
        match self {
            Next::Keep => NextModel::Keep,
            Next::Reset => NextModel::Reset,
            Next::AwaitTarget => NextModel::AwaitTarget,
            Next::AwaitQuote { target } => NextModel::AwaitQuote { target: target@ },
        }
    }
}

/// What one event does to a conversation.
#[derive(Debug)]
pub struct Transition {
    pub effects: Vec<Effect>,
    pub next: Next,
}

pub struct TransitionModel {
    pub effects: Seq<EffectModel>,
    pub next: NextModel,
}

pub open spec fn effects_view(e: Seq<Effect>) -> Seq<EffectModel> {
    e.map_values(|x: Effect| x@)
}

impl View for Transition {
    type V = TransitionModel;

    open spec fn view(&self) -> TransitionModel {
        TransitionModel { effects: effects_view(self.effects@), next: self.next@ }
    }
}

/// A transition that changes nothing and sends nothing.
pub open spec fn ignored() -> TransitionModel {
    TransitionModel { effects: Seq::empty(), next: NextModel::Keep }
}

/// Whether an effect sends a message.
pub open spec fn sends(e: EffectModel) -> bool {
    match e {
        EffectModel::DeleteMessage { .. } => false,
        EffectModel::PersistRoster { .. } => false,
        _ => true,
    }
}

/// The messages that a list of effects sends.
pub open spec fn sent(effects: Seq<EffectModel>) -> Seq<EffectModel> {
    effects.filter(|e: EffectModel| sends(e))
}

/// End of row `k` when `n` names are laid out `KEYBOARD_ROW_LEN` to a row.
pub open spec fn row_end(k: int, n: int) -> int {
    if KEYBOARD_ROW_LEN * k + KEYBOARD_ROW_LEN < n {
        KEYBOARD_ROW_LEN * k + KEYBOARD_ROW_LEN
    } else {
        n
    }
}

/// The names in order, `KEYBOARD_ROW_LEN` to a row, the last row holding the rest.
pub open spec fn keyboard_layout(names: Seq<Seq<char>>) -> Seq<Seq<Seq<char>>> {
    Seq::new(
        ((names.len() + 2) / 3) as nat,
        |k: int| names.subrange(KEYBOARD_ROW_LEN * k, row_end(k, names.len() as int)),
    )
}

/// Lays the names out as keyboard rows of at most `KEYBOARD_ROW_LEN` buttons.
pub fn keyboard_rows(names: &Vec<String>) -> (rows: Vec<Vec<String>>)
    ensures
        rows_view(rows@) == keyboard_layout(names_view(names@)),
{
    let ghost all = names_view(names@);
    let n = names.len();
    let mut rows: Vec<Vec<String>> = Vec::new();
    let mut start: usize = 0;
    while start < n
        invariant
            n == names@.len(),
            all == names_view(names@),
            start <= n,
            start < n ==> start == KEYBOARD_ROW_LEN * rows@.len(),
            start == n ==> rows@.len() == (n + 2) / 3,
            rows@.len() <= (n + 2) / 3,
            forall|k: int|
                0 <= k < rows@.len() ==> names_view(#[trigger] rows@[k]@) == all.subrange(
                    KEYBOARD_ROW_LEN * k,
                    row_end(k, n as int),
                ),
        decreases n - start,
    {
        let end: usize = if n - start > KEYBOARD_ROW_LEN {
            start + KEYBOARD_ROW_LEN
        } else {
            n
        };
        let mut row: Vec<String> = Vec::new();
        let mut j: usize = start;
        while j < end
            invariant
                start <= j <= end,
                end <= n,
                n == names@.len(),
                all == names_view(names@),
                row@.len() == j - start,
                forall|m: int| 0 <= m < row@.len() ==> #[trigger] row@[m]@ == all[start + m],
            decreases end - j,
        {
            row.push(names[j].clone());
            j = j + 1;
        }
        assert(names_view(row@) =~= all.subrange(start as int, end as int));
        let ghost k = rows@.len() as int;
        assert(end == row_end(k, n as int));
        rows.push(row);
        assert(names_view(rows@[k]@) == all.subrange(KEYBOARD_ROW_LEN * k, row_end(k, n as int)));
        start = end;
    }
    assert(rows_view(rows@) =~= keyboard_layout(all));
    rows
}

/// A start command, sent as message `command_message`, with the outcome of the roster fetch.
pub open spec fn start_spec(command_message: i32, roster: Option<Seq<MemberModel>>) -> TransitionModel {
    let delete = EffectModel::DeleteMessage { message_id: command_message };
    match roster {
        None => TransitionModel { effects: seq![delete], next: NextModel::Keep },
        Some(r) => TransitionModel {
            effects: seq![
                delete,
                EffectModel::SendTargetPrompt { rows: keyboard_layout(roster_names(r)) },
            ],
            next: NextModel::AwaitTarget,
        },
    }
}

pub open spec fn roster_opt_view(roster: Option<Vec<Committee>>) -> Option<Seq<MemberModel>> {
    match roster {
        Some(r) => Some(roster_view(r@)),
        None => None,
    }
}

/// Starts the conversation: the command message goes, and, when the roster could be fetched
/// (`roster` is `Some`), the keyboard asking who said it is sent. When it could not, the
/// state stays as it was.
pub fn start_poll_dialogue(command_message: i32, roster: &Option<Vec<Committee>>) -> (t: Transition)
    ensures
        t@ == start_spec(command_message, roster_opt_view(*roster)),
{
    let mut effects: Vec<Effect> = Vec::new();
    effects.push(Effect::DeleteMessage { message_id: command_message });
    match roster {
        None => {
            assert(effects_view(effects@) =~= start_spec(command_message, None).effects);
            Transition { effects, next: Next::Keep }
        },
        Some(r) => {
            let names = member_names(r);
            let rows = keyboard_rows(&names);
            effects.push(Effect::SendTargetPrompt { rows });
            assert(effects_view(effects@) =~= start_spec(
                command_message,
                roster_opt_view(*roster),
            ).effects);
            Transition { effects, next: Next::AwaitTarget }
        },
    }
}

/// A keyboard choice carrying `data`.
pub open spec fn choose_target_spec(state: PollStateModel, data: Option<Seq<char>>) -> TransitionModel {
    match state {
        PollStateModel::ChooseTarget { message_id } => TransitionModel {
            effects: seq![
                EffectModel::DeleteMessage { message_id },
                EffectModel::SendQuotePrompt,
            ],
            next: NextModel::AwaitQuote {
                target: match data {
                    Some(d) => d,
                    None => Seq::empty(),
                },
            },
        },
        _ => ignored(),
    }
}

/// Takes the choice of who said it: the keyboard goes and the quote is asked for. Outside of
/// `ChooseTarget` the choice is ignored.
pub fn choose_target(state: &PollState, data: Option<String>) -> (t: Transition)
    ensures
        t@ == choose_target_spec(state@, opt_string_view(data)),
{
    match state {
        PollState::ChooseTarget { message_id } => {
            let mut effects: Vec<Effect> = Vec::new();
            effects.push(Effect::DeleteMessage { message_id: *message_id });
            effects.push(Effect::SendQuotePrompt);
            let target = match data {
                Some(d) => d,
                None => String::new(),
            };
            assert(effects_view(effects@) =~= choose_target_spec(
                state@,
                opt_string_view(data),
            ).effects);
            Transition { effects, next: Next::AwaitQuote { target } }
        },
        _ => {
            let t = Transition { effects: Vec::new(), next: Next::Keep };
            assert(effects_view(t.effects@) =~= Seq::<EffectModel>::empty());
            t
        },
    }
}

pub open spec fn opt_string_view(o: Option<String>) -> Option<Seq<char>> {
    match o {
        Some(s) => Some(s@),
        None => None,
    }
}

/// `t` is an outcome of receiving message `quote_message` with `text` in `state`, given the
/// outcome of the roster fetch.
pub open spec fn set_quote_ok(
    state: PollStateModel,
    quote_message: i32,
    text: Option<Seq<char>>,
    roster: Option<Seq<MemberModel>>,
    t: TransitionModel,
) -> bool {
    match state {
        PollStateModel::SetQuote { message_id, target } => match text {
            None => t == ignored(),
            Some(quote) => {
                let cleanup = seq![
                    EffectModel::DeleteMessage { message_id },
                    EffectModel::DeleteMessage { message_id: quote_message },
                ];
                match roster {
                    None => t == TransitionModel { effects: cleanup, next: NextModel::Keep },
                    Some(r) => if !roster_names(r).contains(target) {
                        t == TransitionModel {
                            effects: cleanup.push(EffectModel::SendUnknownTarget),
                            next: NextModel::Reset,
                        }
                    } else {
                        &&& t.next == NextModel::Reset
                        &&& t.effects.len() == 4
                        &&& t.effects.take(2) == cleanup
                        &&& t.effects[3] == EffectModel::PersistRoster {
                            committee: roster_after_poll(r, target),
                        }
                        &&& t.effects[2] matches EffectModel::SendPoll { quote: q, options, correct }
                            && q == quote && valid_split(roster_names(r), target, options, correct)
                    },
                }
            },
        },
        _ => t == ignored(),
    }
}

impl PollState {
    /// Whether a message with `text` would be taken as the quote, so that the roster is needed.
    pub fn takes_quote(&self, text: &Option<String>) -> (r: bool)
        ensures
            r == (self@ is SetQuote && text is Some),
    {
        match self {
            PollState::SetQuote { .. } => text.is_some(),
            _ => false,
        }
    }
}

/// Takes the quote: the request for it and the quote message go, the poll is published and
/// the chosen person's count goes up. When the roster could not be fetched the state stays;
/// when the chosen person is not in it the chat is told so and the conversation ends.
/// Outside of `SetQuote`, or for a message without text, nothing happens.
pub fn set_quote(
    state: &PollState,
    quote_message: i32,
    text: Option<String>,
    roster: Option<Vec<Committee>>,
) -> (t: Transition)
    ensures
        set_quote_ok(state@, quote_message, opt_string_view(text), roster_opt_view(roster), t@),
{
    match state {
        PollState::SetQuote { message_id, target } => match text {
            None => {
                let t = Transition { effects: Vec::new(), next: Next::Keep };
                assert(effects_view(t.effects@) =~= Seq::<EffectModel>::empty());
                t
            },
            Some(quote) => {
                let mut effects: Vec<Effect> = Vec::new();
                effects.push(Effect::DeleteMessage { message_id: *message_id });
                effects.push(Effect::DeleteMessage { message_id: quote_message });
                let ghost cleanup = effects_view(effects@);
                assert(cleanup =~= seq![
                    EffectModel::DeleteMessage { message_id: *message_id },
                    EffectModel::DeleteMessage { message_id: quote_message },
                ]);
                match roster {
                    None => Transition { effects, next: Next::Keep },
                    Some(r) => {
                        let names = member_names(&r);
                        match split_poll(&names, target) {
                            Err(_) => {
                                effects.push(Effect::SendUnknownTarget);
                                assert(effects_view(effects@) =~= cleanup.push(
                                    EffectModel::SendUnknownTarget,
                                ));
                                Transition { effects, next: Next::Reset }
                            },
                            Ok(p) => {
                                effects.push(
                                    Effect::SendPoll {
                                        quote,
                                        options: p.options,
                                        correct: p.correct,
                                    },
                                );
                                let committee = record_poll(r, target);
                                effects.push(Effect::PersistRoster { committee });
                                assert(effects_view(effects@).take(2) =~= cleanup);
                                Transition { effects, next: Next::Reset }
                            },
                        }
                    },
                }
            },
        },
        _ => {
            let t = Transition { effects: Vec::new(), next: Next::Keep };
            assert(effects_view(t.effects@) =~= Seq::<EffectModel>::empty());
            t
        },
    }
}

/// The state after the effects of a transition from `current` were performed; `prompt` is the
/// reference of the prompt they sent, read only where the new state waits on it.
pub open spec fn settle_spec(current: PollStateModel, next: NextModel, prompt: i32) -> PollStateModel {
    match next {
        NextModel::Keep => current,
        NextModel::Reset => PollStateModel::Start,
        NextModel::AwaitTarget => PollStateModel::ChooseTarget { message_id: prompt },
        NextModel::AwaitQuote { target } => PollStateModel::SetQuote { message_id: prompt, target },
    }
}

/// The state to keep once the effects of a transition were performed.
pub fn settle(current: PollState, next: Next, prompt: i32) -> (r: PollState)
    ensures
        r@ == settle_spec(current@, next@, prompt),
{
    match next {
        Next::Keep => current,
        Next::Reset => PollState::Start,
        Next::AwaitTarget => PollState::ChooseTarget { message_id: prompt },
        Next::AwaitQuote { target } => PollState::SetQuote { message_id: prompt, target },
    }
}

/// A keyboard choice that reaches a conversation in `Start` or `SetQuote` is ignored: the state
/// stays and no message is sent.
pub proof fn lemma_choice_ignored_outside_choose_target(
    state: PollStateModel,
    data: Option<Seq<char>>,
    prompt: i32,
)
    requires
        state is Start || state is SetQuote,
    ensures
        choose_target_spec(state, data).effects.len() == 0,
        settle_spec(state, choose_target_spec(state, data).next, prompt) == state,
{
}

/// A start command moves any conversation to `ChooseTarget` on the one prompt it sends, when
/// the roster could be fetched; when it could not, no message is sent and the state stays.
pub proof fn lemma_start_flow(
    state: PollStateModel,
    command_message: i32,
    roster: Option<Seq<MemberModel>>,
    prompt: i32,
)
    ensures
        roster is Some ==> {
            let t = start_spec(command_message, roster);
            &&& sent(t.effects).len() == 1
            &&& sent(t.effects)[0] is SendTargetPrompt
            &&& settle_spec(state, t.next, prompt) == PollStateModel::ChooseTarget {
                message_id: prompt,
            }
        },
        roster is None ==> {
            let t = start_spec(command_message, roster);
            &&& sent(t.effects).len() == 0
            &&& settle_spec(state, t.next, prompt) == state
        },
{
    reveal_with_fuel(Seq::filter, 3);
    let t = start_spec(command_message, roster);
    if roster is None {
        assert(t.effects.drop_last() =~= Seq::<EffectModel>::empty());
    } else {
        assert(t.effects.drop_last().drop_last() =~= Seq::<EffectModel>::empty());
        assert(t.effects.drop_last() =~= seq![t.effects[0]]);
    }
}

} // verus!
