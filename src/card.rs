//! The guest-card conversation: offer to hand the card out or to take it back.

use vstd::prelude::*;

use crate::text::same_text;

verus! {

/// Where the guest-card conversation stands.
#[derive(PartialEq, Eq, Structural, Debug, Clone, Copy)]
pub enum CardState {
    Start,
    /// The offer was sent; waiting for a choice on it.
    ChooseCardOption,
    /// Waiting for the name of who takes the card, asked for by message `message_id`.
    GiveCard { message_id: i32 },
}

/// What can be done with the card.
#[derive(PartialEq, Eq, Structural, Debug, Clone, Copy)]
pub enum CardAction {
    /// Hand the card out.
    Give,
    /// Bring the card back to the office.
    Return,
    /// Do nothing.
    Nothing,
}

/// Name of the holder that stands for the office itself.
pub open spec fn office() -> Seq<char> {
    "CLIC"@
}

/// The action offered for a holder: the card at the office can be given, any other holder
/// can return it.
pub fn start_card_dialogue(holder: &str) -> (r: CardAction)
    ensures
        r == (if holder@ == office() {
            CardAction::Give
        } else {
            CardAction::Return
        }),
{
    if same_text(holder, "CLIC") {
        CardAction::Give
    } else {
        CardAction::Return
    }
}

/// The callback data of an action's button.
pub open spec fn token_of(a: CardAction) -> Seq<char> {
    match a {
        CardAction::Give => "give_card"@,
        CardAction::Return => "return_card"@,
        CardAction::Nothing => "nothing"@,
    }
}

impl CardAction {
    pub fn token(&self) -> (r: &'static str)
        ensures
            r@ == token_of(*self),
    {
        match self {
            CardAction::Give => "give_card",
            CardAction::Return => "return_card",
            CardAction::Nothing => "nothing",
        }
    }
}

/// The action chosen by a button's callback data; anything unknown does nothing.
pub fn choose_option(data: &str) -> (r: CardAction)
    ensures
        r == (if data@ == token_of(CardAction::Give) {
            CardAction::Give
        } else if data@ == token_of(CardAction::Return) {
            CardAction::Return
        } else {
            CardAction::Nothing
        }),
{
    if same_text(data, "give_card") {
        CardAction::Give
    } else if same_text(data, "return_card") {
        CardAction::Return
    } else {
        CardAction::Nothing
    }
}

/// The state after a choice: giving the card waits for the holder's name, asked for by message
/// `prompt`; any other choice ends the conversation.
pub fn after_choice(action: CardAction, prompt: i32) -> (r: CardState)
    ensures
        action == CardAction::Give ==> r == (CardState::GiveCard { message_id: prompt }),
        action != CardAction::Give ==> r == CardState::Start,
{
    match action {
        CardAction::Give => CardState::GiveCard { message_id: prompt },
        _ => CardState::Start,
    }
}

} // verus!
